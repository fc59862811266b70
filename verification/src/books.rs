//! Book workspaces created from the web app: where a new book's workspace goes, what it
//! starts with, and how a book is found among the workspaces on disk.
use vstd::prelude::*;

use crate::models::{BookLanguage, language_code};
use crate::paths::{
    components, component_views, join, join_path, path_components, path_starts_with,
    is_component_prefix, Component, PathComponent,
};
use crate::registry::{
    ConversationRegistry, CONVERSATION_REGISTRY_VERSION, initialize_conversation_registry,
};
use crate::text::{chars_of, chars_eq, lemma_seq_lt_total, lemma_seq_lt_transitive, seq_lt, string_of, text_lt};
use crate::web_books::{
    normalize_title, normalize_title_spec, slugify_book_title, slugify_book_title_spec,
};
use crate::workspace::{
    BookManifest, StyleConfig, default_style, is_default_style, is_starter_manifest,
    starter_manifest, subtitle_text, title_page_markdown, title_page_text,
};

verus! {

broadcast use vstd::string::group_string_axioms;

/// The registry file of a book workspace.
pub fn registry_path(workspace_path: &str) -> (r: String)
    ensures
        r@ == join_path(workspace_path@, "conversations.json"@),
{
    let j = join(chars_of(workspace_path).as_slice(), chars_of("conversations.json").as_slice());
    string_of(j.as_slice())
}

/// Why a book workspace could not be created.
#[derive(Debug, Clone, PartialEq, Eq)]
pub enum BookWorkspaceError {
    InvalidTitle,
    InvalidSlug,
    DuplicateSlug { slug: String },
    PathEscape,
    Io { message: String },
}

impl BookWorkspaceError {
    /// The message shown for the error.
    pub fn message(&self) -> (r: String)
        ensures
            match self {
                BookWorkspaceError::InvalidTitle => r@ == "book title must not be empty"@,
                BookWorkspaceError::InvalidSlug => r@ == "book title does not produce a safe slug"@,
                BookWorkspaceError::DuplicateSlug { slug } => r@
                    == "book workspace already exists for slug `"@ + slug@ + "`"@,
                BookWorkspaceError::PathEscape => r@ == "book workspace path escaped books root"@,
                BookWorkspaceError::Io { message } => r@ == message@,
            },
    {
        match self {
            BookWorkspaceError::InvalidTitle => "book title must not be empty".to_string(),
            BookWorkspaceError::InvalidSlug => "book title does not produce a safe slug".to_string(),
            BookWorkspaceError::DuplicateSlug { slug } => {
                let mut v = chars_of("book workspace already exists for slug `");
                crate::text::push_all(&mut v, chars_of(slug.as_str()).as_slice());
                crate::text::push_str(&mut v, "`");
                string_of(v.as_slice())
            },
            BookWorkspaceError::PathEscape => "book workspace path escaped books root".to_string(),
            BookWorkspaceError::Io { message } => message.clone(),
        }
    }
}

/// The path of workspace `slug` under `root`, if it stays inside `root`: the joined path
/// must start with `root` and every component after it must be a plain name.
pub open spec fn workspace_path_check(root: Seq<char>, slug: Seq<char>) -> Option<Seq<char>> {
    let path = join_path(root, slug);
    let pc = path_components(path);
    let rc = path_components(root);
    if !is_component_prefix(pc, rc) {
        None
    } else if exists|i: int| rc.len() <= i < pc.len() && !(pc[i] is Normal) {
        None
    } else {
        Some(path)
    }
}

/// The path of workspace `slug` under `root`; `PathEscape` if it would leave `root`.
pub fn validated_workspace_path(root: &str, slug: &str) -> (r: Result<String, BookWorkspaceError>)
    ensures
        match workspace_path_check(root@, slug@) {
            Some(p) => r matches Ok(s) && s@ == p,
            None => r matches Err(BookWorkspaceError::PathEscape),
        },
{
    let rv = chars_of(root);
    let path = join(rv.as_slice(), chars_of(slug).as_slice());
    if !path_starts_with(path.as_slice(), rv.as_slice()) {
        return Err(BookWorkspaceError::PathEscape);
    }
    let pcs = components(path.as_slice());
    let rcs = components(rv.as_slice());
    let ghost pc = component_views(pcs@);
    let ghost rc = component_views(rcs@);
    assert(pc.len() == pcs@.len() && rc.len() == rcs@.len());
    let mut i = rcs.len();
    while i < pcs.len()
        invariant
            rc.len() <= i <= pcs@.len(),
            pc == component_views(pcs@),
            pc == path_components(join_path(root@, slug@)),
            rc == path_components(root@),
            is_component_prefix(pc, rc),
            pc.len() == pcs@.len(),
            rc.len() == rcs@.len(),
            forall|k: int| rc.len() <= k < i ==> (pc[k] is Normal),
        decreases pcs.len() - i,
    {
        assert(pc[i as int] == pcs@[i as int]@);
        match &pcs[i] {
            Component::Normal(_) => {},
            _ => {
                assert(!(pc[i as int] is Normal));
                return Err(BookWorkspaceError::PathEscape);
            },
        }
        i = i + 1;
    }
    Ok(string_of(path.as_slice()))
}

/// The opening chapter of a book created from the web app.
pub open spec fn book_opening_text(language: BookLanguage) -> Seq<char> {
    match language {
        BookLanguage::English => "# Opening\n\nThis book workspace is ready for authoring.\n"@,
        BookLanguage::Russian => "# Начало\n\nЭто книжное рабочее пространство готово к работе.\n"@,
    }
}

/// The opening chapter of a book created from the web app.
pub fn localized_opening(language: BookLanguage) -> (r: &'static str)
    ensures
        r@ == book_opening_text(language),
{
    match language {
        BookLanguage::English => "# Opening\n\nThis book workspace is ready for authoring.\n",
        BookLanguage::Russian => "# Начало\n\nЭто книжное рабочее пространство готово к работе.\n",
    }
}

/// A book workspace found on disk.
pub struct BookWorkspace {
    pub book_id: String,
    pub slug: String,
    pub title: String,
    pub subtitle: String,
    pub language: BookLanguage,
    pub workspace_path: String,
    /// Creation time, in nanoseconds since the Unix epoch.
    pub created_at: i64,
    /// Last modification time, in nanoseconds since the Unix epoch.
    pub updated_at: i64,
}

/// The mathematical form of a book workspace.
pub struct WorkspaceView {
    pub book_id: Seq<char>,
    pub slug: Seq<char>,
    pub title: Seq<char>,
    pub subtitle: Seq<char>,
    pub language: BookLanguage,
    pub workspace_path: Seq<char>,
    pub created_at: i64,
    pub updated_at: i64,
}

impl View for BookWorkspace {
    type V = WorkspaceView;

    open spec fn view(&self) -> WorkspaceView {
        WorkspaceView {
            book_id: self.book_id@,
            slug: self.slug@,
            title: self.title@,
            subtitle: self.subtitle@,
            language: self.language,
            workspace_path: self.workspace_path@,
            created_at: self.created_at,
            updated_at: self.updated_at,
        }
    }
}

impl BookWorkspace {
    /// A copy of the workspace.
    pub fn copy(&self) -> (r: BookWorkspace)
        ensures
            r@ == self@,
    {
        BookWorkspace {
            book_id: self.book_id.clone(),
            slug: self.slug.clone(),
            title: self.title.clone(),
            subtitle: self.subtitle.clone(),
            language: self.language,
            workspace_path: self.workspace_path.clone(),
            created_at: self.created_at,
            updated_at: self.updated_at,
        }
    }
}

/// The views of a list of workspaces.
pub open spec fn workspace_views(v: Seq<BookWorkspace>) -> Seq<WorkspaceView> {
    v.map_values(|w: BookWorkspace| w@)
}

/// `s` with `w` placed after every workspace whose slug does not come after its slug
/// (stable insertion into a list ordered by slug).
pub open spec fn insert_by_slug(s: Seq<WorkspaceView>, w: WorkspaceView) -> Seq<WorkspaceView>
    decreases s.len(),
{
    if s.len() == 0 {
        seq![w]
    } else if !seq_lt(w.slug, s.last().slug) {
        s.push(w)
    } else {
        insert_by_slug(s.drop_last(), w).push(s.last())
    }
}

/// `s` ordered by slug, ties kept in order (a stable sort).
pub open spec fn sort_by_slug(s: Seq<WorkspaceView>) -> Seq<WorkspaceView>
    decreases s.len(),
{
    if s.len() == 0 {
        s
    } else {
        insert_by_slug(sort_by_slug(s.drop_last()), s.last())
    }
}

/// Workspaces in slug order: no slug comes before an earlier one.
pub open spec fn is_by_slug(s: Seq<WorkspaceView>) -> bool {
    forall|i: int, j: int| 0 <= i < j < s.len() ==> !seq_lt(s[j].slug, s[i].slug)
}

proof fn lemma_insert_by_slug_split(s: Seq<WorkspaceView>, w: WorkspaceView, j: int)
    requires
        0 <= j <= s.len(),
        j == 0 || !seq_lt(w.slug, s[j - 1].slug),
        forall|k: int| j <= k < s.len() ==> seq_lt(w.slug, #[trigger] s[k].slug),
    ensures
        insert_by_slug(s, w) == s.take(j) + seq![w] + s.skip(j),
    decreases s.len(),
{
    if s.len() == 0 {
        assert(s.take(j) + seq![w] + s.skip(j) =~= seq![w]);
    } else if !seq_lt(w.slug, s.last().slug) {
        assert(j == s.len());
        assert(s.take(j) + seq![w] + s.skip(j) =~= s.push(w));
    } else {
        assert(j < s.len());
        let t = s.drop_last();
        lemma_insert_by_slug_split(t, w, j);
        assert(t.take(j) + seq![w] + t.skip(j) + seq![s.last()] =~= s.take(j) + seq![w] + s.skip(
            j,
        ));
    }
}

proof fn lemma_insert_by_slug_keeps_order(s: Seq<WorkspaceView>, w: WorkspaceView)
    requires
        is_by_slug(s),
    ensures
        is_by_slug(insert_by_slug(s, w)),
        insert_by_slug(s, w).to_multiset() == s.to_multiset().insert(w),
        insert_by_slug(s, w).len() == s.len() + 1,
    decreases s.len(),
{
    broadcast use vstd::seq_lib::group_to_multiset_ensures;

    if s.len() == 0 {
        assert(seq![w] =~= Seq::<WorkspaceView>::empty().push(w));
    } else if !seq_lt(w.slug, s.last().slug) {
        let u = s.push(w);
        assert forall|i: int, j: int| 0 <= i < j < u.len() implies !seq_lt(
            u[j].slug,
            u[i].slug,
        ) by {
            if j == s.len() && i < s.len() - 1 {
                assert(!seq_lt(s[s.len() - 1].slug, s[i].slug));
                if seq_lt(w.slug, s[i].slug) {
                    if s[i].slug == s.last().slug {
                    } else {
                        lemma_seq_lt_total(s[i].slug, s.last().slug);
                        lemma_seq_lt_transitive(w.slug, s[i].slug, s.last().slug);
                    }
                }
            }
        }
    } else {
        let t = s.drop_last();
        lemma_insert_by_slug_keeps_order(t, w);
        let u = insert_by_slug(t, w);
        assert(s =~= t.push(s.last()));
        lemma_seq_lt_total(w.slug, s.last().slug);
        assert forall|i: int, j: int| 0 <= i < j < u.len() + 1 implies !seq_lt(
            u.push(s.last())[j].slug,
            u.push(s.last())[i].slug,
        ) by {
            if j == u.len() {
                if u[i] == w {
                } else {
                    assert(u.to_multiset().count(u[i]) > 0);
                    assert(t.to_multiset().count(u[i]) > 0);
                    assert(t.contains(u[i]));
                    let k = choose|k: int| 0 <= k < t.len() && t[k] == u[i];
                    assert(s[k] == t[k]);
                    assert(s[s.len() - 1] == s.last());
                }
            }
        }
    }
}

proof fn lemma_sort_by_slug(s: Seq<WorkspaceView>)
    ensures
        is_by_slug(sort_by_slug(s)),
        sort_by_slug(s).to_multiset() == s.to_multiset(),
        sort_by_slug(s).len() == s.len(),
    decreases s.len(),
{
    broadcast use vstd::seq_lib::group_to_multiset_ensures;

    if s.len() > 0 {
        lemma_sort_by_slug(s.drop_last());
        lemma_insert_by_slug_keeps_order(sort_by_slug(s.drop_last()), s.last());
        assert(s =~= s.drop_last().push(s.last()));
    }
}

/// Sorting workspaces by slug puts them in slug order and keeps every workspace.
pub proof fn law_sort_by_slug_orders_and_keeps_workspaces(s: Seq<WorkspaceView>)
    ensures
        is_by_slug(sort_by_slug(s)),
        sort_by_slug(s).to_multiset() == s.to_multiset(),
{
    lemma_sort_by_slug(s);
}

/// Orders workspaces by slug, keeping ties in order.
pub fn sort_workspaces_by_slug(v: Vec<BookWorkspace>) -> (r: Vec<BookWorkspace>)
    ensures
        workspace_views(r@) == sort_by_slug(workspace_views(v@)),
{
    let ghost src = workspace_views(v@);
    let mut out: Vec<BookWorkspace> = Vec::new();
    let mut rest = v;
    let ghost n = src.len();
    assert(workspace_views(rest@) =~= src.skip(0));
    proof {
        assert(workspace_views(out@) =~= Seq::<WorkspaceView>::empty());
        assert(src.take(0) =~= Seq::<WorkspaceView>::empty());
    }
    while rest.len() > 0
        invariant
            n == src.len(),
            workspace_views(rest@) == src.skip((n - rest@.len()) as int),
            rest@.len() <= n,
            workspace_views(out@) == sort_by_slug(src.take((n - rest@.len()) as int)),
            is_by_slug(workspace_views(out@)),
        decreases rest.len(),
    {
        let ghost done = (n - rest@.len()) as int;
        let ghost old_rest = workspace_views(rest@);
        let ghost old_vec = rest@;
        let w = rest.remove(0);
        proof {
            assert(rest@ == old_vec.remove(0));
            assert(old_rest[0] == w@);
            assert(workspace_views(rest@) =~= old_rest.skip(1));
            assert(src.skip(done)[0] == src[done]);
            assert(workspace_views(rest@) =~= src.skip(done + 1));
            assert(src.take(done + 1).drop_last() =~= src.take(done));
            assert(src.take(done + 1).last() == src[done]);
        }
        let ghost before = workspace_views(out@);
        let slug = chars_of(w.slug.as_str());
        let mut j = out.len();
        while j > 0 && text_lt(slug.as_slice(), chars_of(out[j - 1].slug.as_str()).as_slice())
            invariant
                j <= out.len(),
                slug@ == w@.slug,
                workspace_views(out@) == before,
                before.len() == out@.len(),
                forall|k: int| j <= k < before.len() ==> seq_lt(w@.slug, #[trigger] before[k].slug),
            decreases j,
        {
            assert(before[j - 1] == out@[j - 1]@);
            j = j - 1;
        }
        proof {
            if j > 0 {
                assert(before[j - 1] == out@[j - 1]@);
            }
            lemma_insert_by_slug_split(before, w@, j as int);
            lemma_insert_by_slug_keeps_order(before, w@);
        }
        out.insert(j, w);
        assert(workspace_views(out@) =~= before.take(j as int) + seq![w@] + before.skip(j as int));
    }
    assert(src.take(n as int) =~= src);
    out
}

/// Whether workspace `w` is the one `key` names, by book id or by slug.
pub open spec fn names_workspace(w: WorkspaceView, key: Seq<char>) -> bool {
    w.book_id == key || w.slug == key
}

/// The first workspace that `key` names, by book id or by slug.
pub fn find_book_workspace(workspaces: &Vec<BookWorkspace>, book_id: &str) -> (r: Option<
    BookWorkspace,
>)
    ensures
        match r {
            Some(w) => exists|i: int|
                0 <= i < workspaces@.len() && names_workspace(workspaces@[i]@, book_id@) && w@
                    == workspaces@[i]@ && forall|k: int|
                    0 <= k < i ==> !names_workspace(#[trigger] workspaces@[k]@, book_id@),
            None => forall|k: int|
                0 <= k < workspaces@.len() ==> !names_workspace(#[trigger] workspaces@[k]@, book_id@),
        },
{
    let key = chars_of(book_id);
    let mut i: usize = 0;
    while i < workspaces.len()
        invariant
            i <= workspaces@.len(),
            key@ == book_id@,
            forall|k: int| 0 <= k < i ==> !names_workspace(#[trigger] workspaces@[k]@, book_id@),
        decreases workspaces.len() - i,
    {
        let w = &workspaces[i];
        if chars_eq(chars_of(w.book_id.as_str()).as_slice(), key.as_slice()) || chars_eq(
            chars_of(w.slug.as_str()).as_slice(),
            key.as_slice(),
        ) {
            return Some(w.copy());
        }
        i = i + 1;
    }
    None
}

/// Everything a new book workspace is made of: its slug and path, the files it starts
/// with, and its empty conversation registry.
pub struct BookWorkspacePlan {
    pub slug: String,
    pub workspace_path: String,
    pub manifest: BookManifest,
    pub style: StyleConfig,
    pub title_page: String,
    pub opening: String,
    pub registry: ConversationRegistry,
}

/// A new book's workspace is one directory inside the books root, named by the book's slug:
/// its path is the root joined with the slug, and as a path it is the root's components and
/// then the slug.
pub proof fn law_book_workspace_is_one_level_inside_root(root: Seq<char>, title: Seq<char>)
    ensures
        book_plan_spec(root, title) matches Ok((t, slug, path)) ==> path == join_path(root, slug)
            && path_components(path) == path_components(root).push(PathComponent::Normal(slug)),
{
    match book_plan_spec(root, title) {
        Ok((t, slug, path)) => {
            crate::web_books::law_slug_is_directory_safe(t);
            assert(slugify_book_title_spec(t) == Some(slug));
            assert(forall|k: int| 0 <= k < slug.len() ==> crate::web_books::slug_char(#[trigger] slug[k]));
            assert(slug.len() > 0);
            assert forall|k: int| 0 <= k < slug.len() implies slug[k] != '/' by {
                assert(crate::web_books::slug_char(slug[k]));
            }
            assert(slug != "."@) by {
                if slug == "."@ {
                    reveal_strlit(".");
                    assert(crate::web_books::slug_char(slug[0]));
                }
            }
            assert(slug != ".."@) by {
                if slug == ".."@ {
                    reveal_strlit("..");
                    assert(crate::web_books::slug_char(slug[0]));
                }
            }
            crate::paths::lemma_join_plain(root, slug);
        },
        Err(_) => {},
    }
}

/// What creating book `title` under `root` amounts to, or why it is refused: the title
/// trimmed must not be empty, it must yield a slug, and the slug's path must stay under
/// `root`. The book's id and conversation key are its slug.
pub open spec fn book_plan_spec(root: Seq<char>, title: Seq<char>) -> Result<
    (Seq<char>, Seq<char>, Seq<char>),
    BookWorkspaceError,
> {
    match normalize_title_spec(title) {
        None => Err(BookWorkspaceError::InvalidTitle),
        Some(t) => match slugify_book_title_spec(t) {
            None => Err(BookWorkspaceError::InvalidSlug),
            Some(slug) => match workspace_path_check(root, slug) {
                None => Err(BookWorkspaceError::PathEscape),
                Some(path) => Ok((t, slug, path)),
            },
        },
    }
}

/// Plans the workspace of a new book titled `title` under `root`. The caller refuses the
/// plan with `DuplicateSlug` when its path already exists, and otherwise writes it.
pub fn plan_book_workspace(root: &str, title: &str, language: BookLanguage) -> (r: Result<
    BookWorkspacePlan,
    BookWorkspaceError,
>)
    ensures
        match book_plan_spec(root@, title@) {
            Err(e) => r == Err::<BookWorkspacePlan, BookWorkspaceError>(e),
            Ok((t, slug, path)) => r matches Ok(p) && {
                &&& p.slug@ == slug
                &&& p.workspace_path@ == path
                &&& is_starter_manifest(p.manifest, slug, slug, t, language)
                &&& is_default_style(p.style)
                &&& p.title_page@ == title_page_text(t, subtitle_text(language))
                &&& p.opening@ == book_opening_text(language)
                &&& p.registry.version == CONVERSATION_REGISTRY_VERSION
                &&& p.registry.book_id@ == slug
                &&& p.registry.conversations@.len() == 0
            },
        },
{
    let normalized = match normalize_title(title) {
        Some(t) => t,
        None => {
            return Err(BookWorkspaceError::InvalidTitle);
        },
    };
    let slug = match slugify_book_title(normalized.as_str()) {
        Some(s) => s,
        None => {
            return Err(BookWorkspaceError::InvalidSlug);
        },
    };
    let workspace_path = match validated_workspace_path(root, slug.as_str()) {
        Ok(p) => p,
        Err(e) => {
            return Err(e);
        },
    };
    let manifest = starter_manifest(slug.as_str(), slug.as_str(), normalized.as_str(), language);
    let title_page = title_page_markdown(manifest.title.as_str(), manifest.subtitle.as_str());
    let registry = initialize_conversation_registry(slug.as_str());
    Ok(BookWorkspacePlan {
        slug,
        workspace_path,
        manifest,
        style: default_style(),
        title_page,
        opening: localized_opening(language).to_string(),
        registry,
    })
}

/// Whether the planned workspace may be written: a directory already at its path means a
/// book with the same slug exists, and the plan is refused with `DuplicateSlug`.
pub fn admit_planned_workspace(plan: &BookWorkspacePlan, path_exists: bool) -> (r: Result<
    (),
    BookWorkspaceError,
>)
    ensures
        path_exists ==> (r matches Err(BookWorkspaceError::DuplicateSlug { slug }) && slug@
            == plan.slug@),
        !path_exists ==> r is Ok,
{
    if path_exists {
        Err(BookWorkspaceError::DuplicateSlug { slug: plan.slug.clone() })
    } else {
        Ok(())
    }
}

/// The workspace record of a book just created from `plan`, with the times its
/// directory reports.
pub fn planned_workspace(
    plan: &BookWorkspacePlan,
    language: BookLanguage,
    created_at: i64,
    updated_at: i64,
) -> (r: BookWorkspace)
    ensures
        r.book_id@ == plan.slug@,
        r.slug@ == plan.slug@,
        r.title@ == plan.manifest.title@,
        r.subtitle@ == plan.manifest.subtitle@,
        r.language == language,
        r.workspace_path@ == plan.workspace_path@,
        r.created_at == created_at,
        r.updated_at == updated_at,
{
    BookWorkspace {
        book_id: plan.slug.clone(),
        slug: plan.slug.clone(),
        title: plan.manifest.title.clone(),
        subtitle: plan.manifest.subtitle.clone(),
        language,
        workspace_path: plan.workspace_path.clone(),
        created_at,
        updated_at,
    }
}

/// The body of a request to create a book.
#[derive(Debug, Clone)]
pub struct CreateBookRequest {
    pub title: String,
    pub language: Option<String>,
}

/// A book as the web API shows it; instants are RFC 3339 texts.
#[derive(Debug, Clone, PartialEq, Eq)]
pub struct WebBookResponse {
    pub book_id: String,
    pub slug: String,
    pub title: String,
    pub subtitle: String,
    pub language: String,
    pub created_at: String,
    pub updated_at: String,
}

/// A book workspace as the web API shows it.
pub fn book_response(w: &BookWorkspace) -> (r: WebBookResponse)
    ensures
        r.book_id@ == w.book_id@,
        r.slug@ == w.slug@,
        r.title@ == w.title@,
        r.subtitle@ == w.subtitle@,
        r.language@ == language_code(w.language),
        r.created_at@ == crate::conversations::rfc3339_text(w.created_at),
        r.updated_at@ == crate::conversations::rfc3339_text(w.updated_at),
{
    WebBookResponse {
        book_id: w.book_id.clone(),
        slug: w.slug.clone(),
        title: w.title.clone(),
        subtitle: w.subtitle.clone(),
        language: w.language.code().to_string(),
        created_at: crate::conversations::format_rfc3339(w.created_at),
        updated_at: crate::conversations::format_rfc3339(w.updated_at),
    }
}

/// The language a new book is written in: Russian unless the request names one; `None`
/// when the name is not a language.
pub fn requested_book_language(language: Option<&str>) -> (r: Option<BookLanguage>)
    ensures
        r == match language {
            None => Some(BookLanguage::Russian),
            Some(v) => crate::models::parse_language(v@),
        },
{
    match language {
        None => Some(BookLanguage::Russian),
        Some(v) => BookLanguage::parse(v),
    }
}

/// The HTTP status, error code and message a refused book creation is answered with.
pub fn book_error_response(error: &BookWorkspaceError) -> (r: (u16, &'static str, String))
    ensures
        match error {
            BookWorkspaceError::InvalidTitle => r.0 == 400 && r.1@ == "invalid_title"@ && r.2@
                == "Book title must contain letters or numbers."@,
            BookWorkspaceError::InvalidSlug => r.0 == 400 && r.1@ == "invalid_title"@ && r.2@
                == "Book title must contain letters or numbers."@,
            BookWorkspaceError::DuplicateSlug { slug } => r.0 == 409 && r.1@
                == "duplicate_book_slug"@ && r.2@ == "A book workspace already exists for slug `"@
                + slug@ + "`."@,
            BookWorkspaceError::PathEscape => r.0 == 400 && r.1@ == "invalid_book_path"@ && r.2@
                == "Book title resolved to an invalid workspace path."@,
            BookWorkspaceError::Io { .. } => r.0 == 500 && r.1@ == "book_create_failed"@ && r.2@
                == "Failed to create book."@,
        },
{
    match error {
        BookWorkspaceError::InvalidTitle | BookWorkspaceError::InvalidSlug => (
            400,
            "invalid_title",
            "Book title must contain letters or numbers.".to_string(),
        ),
        BookWorkspaceError::DuplicateSlug { slug } => {
            let mut v = chars_of("A book workspace already exists for slug `");
            crate::text::push_all(&mut v, chars_of(slug.as_str()).as_slice());
            crate::text::push_str(&mut v, "`.");
            (409, "duplicate_book_slug", string_of(v.as_slice()))
        },
        BookWorkspaceError::PathEscape => (
            400,
            "invalid_book_path",
            "Book title resolved to an invalid workspace path.".to_string(),
        ),
        BookWorkspaceError::Io { .. } => (500, "book_create_failed", "Failed to create book.".to_string()),
    }
}

} // verus!
