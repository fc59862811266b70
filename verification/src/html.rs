//! HTML escaping and the server-rendered reader shell.
use vstd::prelude::*;

use crate::text::{chars_of, push_all, push_str, string_of};

verus! {

broadcast use vstd::string::group_string_axioms;

/// Replaces each character of `s` by `f` of it, in order.
pub open spec fn flat_map_chars(s: Seq<char>, f: spec_fn(char) -> Seq<char>) -> Seq<char>
    decreases s.len(),
{
    if s.len() == 0 {
        seq![]
    } else {
        flat_map_chars(s.drop_last(), f) + f(s.last())
    }
}

/// The HTML text escape of one character.
pub open spec fn html_escape_char(c: char) -> Seq<char> {
    if c == '&' {
        "&amp;"@
    } else if c == '<' {
        "&lt;"@
    } else if c == '>' {
        "&gt;"@
    } else if c == '"' {
        "&quot;"@
    } else if c == '\'' {
        "&#39;"@
    } else {
        seq![c]
    }
}

/// The HTML attribute escape of one character (quotes, angle brackets and ampersands).
pub open spec fn attr_escape_char(c: char) -> Seq<char> {
    if c == '&' {
        "&amp;"@
    } else if c == '"' {
        "&quot;"@
    } else if c == '<' {
        "&lt;"@
    } else if c == '>' {
        "&gt;"@
    } else {
        seq![c]
    }
}

/// `s` escaped for HTML text and attribute values.
pub open spec fn escape_html_spec(s: Seq<char>) -> Seq<char> {
    flat_map_chars(s, |c: char| html_escape_char(c))
}

/// `s` escaped for a double-quoted HTML attribute.
pub open spec fn escape_html_attr_spec(s: Seq<char>) -> Seq<char> {
    flat_map_chars(s, |c: char| attr_escape_char(c))
}

fn html_escape_into(out: &mut Vec<char>, c: char)
    ensures
        final(out)@ == old(out)@ + html_escape_char(c),
{
    if c == '&' {
        push_str(out, "&amp;");
    } else if c == '<' {
        push_str(out, "&lt;");
    } else if c == '>' {
        push_str(out, "&gt;");
    } else if c == '"' {
        push_str(out, "&quot;");
    } else if c == '\'' {
        push_str(out, "&#39;");
    } else {
        out.push(c);
        assert(out@ =~= old(out)@ + seq![c]);
    }
}

fn attr_escape_into(out: &mut Vec<char>, c: char)
    ensures
        final(out)@ == old(out)@ + attr_escape_char(c),
{
    if c == '&' {
        push_str(out, "&amp;");
    } else if c == '"' {
        push_str(out, "&quot;");
    } else if c == '<' {
        push_str(out, "&lt;");
    } else if c == '>' {
        push_str(out, "&gt;");
    } else {
        out.push(c);
        assert(out@ =~= old(out)@ + seq![c]);
    }
}

proof fn lemma_flat_map_step(s: Seq<char>, i: int, f: spec_fn(char) -> Seq<char>)
    requires
        0 <= i < s.len(),
    ensures
        flat_map_chars(s.take(i + 1), f) == flat_map_chars(s.take(i), f) + f(s[i]),
{
    assert(s.take(i + 1).drop_last() =~= s.take(i));
}

/// The characters of `s` escaped for HTML.
pub fn escape_html_chars(s: &[char]) -> (r: Vec<char>)
    ensures
        r@ == escape_html_spec(s@),
{
    let mut out: Vec<char> = Vec::new();
    let mut i: usize = 0;
    while i < s.len()
        invariant
            i <= s.len(),
            out@ == escape_html_spec(s@.take(i as int)),
        decreases s.len() - i,
    {
        html_escape_into(&mut out, s[i]);
        proof {
            lemma_flat_map_step(s@, i as int, |c: char| html_escape_char(c));
        }
        i = i + 1;
    }
    assert(s@.take(s.len() as int) =~= s@);
    out
}

/// Escapes `&`, `<`, `>`, `"` and `'` for HTML.
pub fn escape_html(value: &str) -> (r: String)
    ensures
        r@ == escape_html_spec(value@),
{
    let v = chars_of(value);
    let e = escape_html_chars(v.as_slice());
    string_of(e.as_slice())
}

/// The characters of `s` escaped for a double-quoted HTML attribute.
pub fn escape_html_attr_chars(s: &[char]) -> (r: Vec<char>)
    ensures
        r@ == escape_html_attr_spec(s@),
{
    let mut out: Vec<char> = Vec::new();
    let mut i: usize = 0;
    while i < s.len()
        invariant
            i <= s.len(),
            out@ == escape_html_attr_spec(s@.take(i as int)),
        decreases s.len() - i,
    {
        attr_escape_into(&mut out, s[i]);
        proof {
            lemma_flat_map_step(s@, i as int, |c: char| attr_escape_char(c));
        }
        i = i + 1;
    }
    assert(s@.take(s.len() as int) =~= s@);
    out
}

/// Escapes `&`, `"`, `<` and `>` for a double-quoted HTML attribute.
pub fn escape_html_attr(value: &str) -> (r: String)
    ensures
        r@ == escape_html_attr_spec(value@),
{
    let v = chars_of(value);
    let e = escape_html_attr_chars(v.as_slice());
    string_of(e.as_slice())
}

/// Escaped HTML text holds none of the characters that HTML gives a meaning.
pub proof fn law_escaped_html_has_no_markup(s: Seq<char>)
    ensures
        forall|k: int|
            0 <= k < escape_html_spec(s).len() ==> {
                let c = #[trigger] escape_html_spec(s)[k];
                c != '<' && c != '>' && c != '"' && c != '\''
            },
    decreases s.len(),
{
    if s.len() > 0 {
        law_escaped_html_has_no_markup(s.drop_last());
        let p = escape_html_spec(s.drop_last());
        let e = html_escape_char(s.last());
        reveal_strlit("&amp;");
        reveal_strlit("&lt;");
        reveal_strlit("&gt;");
        reveal_strlit("&quot;");
        reveal_strlit("&#39;");
        assert forall|k: int| 0 <= k < (p + e).len() implies {
            let c = #[trigger] (p + e)[k];
            c != '<' && c != '>' && c != '"' && c != '\''
        } by {
            if k >= p.len() {
                assert((p + e)[k] == e[k - p.len()]);
            } else {
                assert((p + e)[k] == p[k]);
            }
        }
    }
}

/// Escaped attribute text holds no quote or angle bracket.
pub proof fn law_escaped_attr_has_no_quote(s: Seq<char>)
    ensures
        forall|k: int|
            0 <= k < escape_html_attr_spec(s).len() ==> {
                let c = #[trigger] escape_html_attr_spec(s)[k];
                c != '<' && c != '>' && c != '"'
            },
    decreases s.len(),
{
    if s.len() > 0 {
        law_escaped_attr_has_no_quote(s.drop_last());
        let p = escape_html_attr_spec(s.drop_last());
        let e = attr_escape_char(s.last());
        reveal_strlit("&amp;");
        reveal_strlit("&lt;");
        reveal_strlit("&gt;");
        reveal_strlit("&quot;");
        assert forall|k: int| 0 <= k < (p + e).len() implies {
            let c = #[trigger] (p + e)[k];
            c != '<' && c != '>' && c != '"'
        } by {
            if k >= p.len() {
                assert((p + e)[k] == e[k - p.len()]);
            } else {
                assert((p + e)[k] == p[k]);
            }
        }
    }
}

/// Reader shell markup up to the page title.
pub const SHELL_OPEN: &'static str = "<!doctype html><html lang=\"en\"><head><meta charset=\"utf-8\"><meta name=\"viewport\" content=\"width=device-width, initial-scale=1\">";

/// Reader shell markup from the page title to the header's token attribute.
pub const SHELL_STYLE: &'static str = "<style>\n            body { margin: 0; font-family: Baskerville, Georgia, serif; color: #221814; background: linear-gradient(180deg, #efe4d2 0%, #dbc7ae 100%); }\n            .reader-shell { max-width: 72rem; margin: 0 auto; padding: 2rem 1.25rem 4rem; }\n            .reader-header { margin-bottom: 2rem; padding: 1.5rem; border: 1px solid rgba(67, 43, 25, 0.12); border-radius: 1.25rem; background: rgba(255, 249, 241, 0.92); box-shadow: 0 1.2rem 3rem rgba(56, 35, 19, 0.1); }\n            .reader-header p { margin: 0.35rem 0 0; color: #654f42; }\n            .reader-meta { text-transform: uppercase; letter-spacing: 0.12em; font-size: 0.75rem; color: #8a6039; }\n            .reader-book { padding: 2rem; border: 1px solid rgba(67, 43, 25, 0.12); border-radius: 1.5rem; background: rgba(255, 252, 247, 0.94); box-shadow: 0 1.2rem 3rem rgba(56, 35, 19, 0.08); }\n            .reader-book section { margin-bottom: 2rem; }\n            .reader-book h1, .reader-book h2, .reader-book h3 { line-height: 1.05; }\n            .reader-book p { line-height: 1.75; }\n            .reader-empty, .reader-error { padding: 1.5rem; border-radius: 1rem; background: rgba(239, 228, 210, 0.7); }\n        </style></head><body><main class=\"reader-shell\"><header class=\"reader-header\"";

/// Reader shell markup between the token and the heading.
pub const SHELL_HEADING: &'static str = "<p class=\"reader-meta\">Book writer chat reader</p>";

/// Reader shell markup opening the article.
pub const SHELL_ARTICLE: &'static str = "</header><article class=\"reader-book\">";

/// Reader shell markup closing the page.
pub const SHELL_CLOSE: &'static str = "</article></main></body></html>";

/// The page title element.
pub open spec fn title_markup_spec(title: Seq<char>) -> Seq<char> {
    "<title>"@ + escape_html_spec(title) + " | Reader</title>"@
}

/// The header's token attribute.
pub open spec fn token_markup_spec(token: Seq<char>) -> Seq<char> {
    " data-token=\""@ + escape_html_spec(token) + "\">"@
}

/// The header's heading.
pub open spec fn heading_markup_spec(title: Seq<char>) -> Seq<char> {
    "<h1>"@ + escape_html_spec(title) + "</h1>"@
}

/// The header's subtitle.
pub open spec fn subtitle_markup_spec(subtitle: Seq<char>) -> Seq<char> {
    "<p>"@ + escape_html_spec(subtitle) + "</p>"@
}

/// The revision line of the reader header, empty without a revision.
pub open spec fn revision_markup_spec(revision_id: Option<Seq<char>>) -> Seq<char> {
    match revision_id {
        Some(r) => "<p class=\"reader-meta\">Revision "@ + escape_html_spec(r) + "</p>"@,
        None => seq![],
    }
}

/// The article body: the error notice when there is an error, else the content as given.
pub open spec fn body_markup_spec(content_html: Seq<char>, error_message: Option<Seq<char>>) -> Seq<
    char,
> {
    match error_message {
        Some(m) => "<section class=\"reader-error\"><h2>Reader unavailable</h2><p>"@
            + escape_html_spec(m) + "</p></section>"@,
        None => content_html,
    }
}

/// The full reader shell page.
pub open spec fn reader_shell_spec(
    token: Seq<char>,
    title: Seq<char>,
    subtitle: Seq<char>,
    revision_id: Option<Seq<char>>,
    content_html: Seq<char>,
    error_message: Option<Seq<char>>,
) -> Seq<char> {
    SHELL_OPEN@ + title_markup_spec(title) + SHELL_STYLE@ + token_markup_spec(token)
        + SHELL_HEADING@ + heading_markup_spec(title) + subtitle_markup_spec(subtitle)
        + revision_markup_spec(revision_id) + SHELL_ARTICLE@ + body_markup_spec(
        content_html,
        error_message,
    ) + SHELL_CLOSE@
}

/// `f` occurs in `s`.
pub open spec fn contains_text(s: Seq<char>, f: Seq<char>) -> bool {
    exists|i: int| 0 <= i <= s.len() - f.len() && #[trigger] s.subrange(i, i + f.len()) == f
}

proof fn lemma_contains_middle(a: Seq<char>, f: Seq<char>, b: Seq<char>)
    ensures
        contains_text(a + f + b, f),
{
    let i = a.len() as int;
    assert((a + f + b).subrange(i, i + f.len()) =~= f);
}

/// The reader page holds its title, escaped, in the page title and in the heading; the
/// subtitle and the token escaped; the revision line when there is a revision; and in the
/// article the escaped error notice when there is an error, else the content as given.
pub proof fn law_reader_shell_parts(
    token: Seq<char>,
    title: Seq<char>,
    subtitle: Seq<char>,
    revision_id: Option<Seq<char>>,
    content_html: Seq<char>,
    error_message: Option<Seq<char>>,
)
    ensures
        ({
            let page = reader_shell_spec(
                token,
                title,
                subtitle,
                revision_id,
                content_html,
                error_message,
            );
            &&& contains_text(page, "<title>"@ + escape_html_spec(title) + " | Reader</title>"@)
            &&& contains_text(page, "<h1>"@ + escape_html_spec(title) + "</h1>"@)
            &&& contains_text(page, "<p>"@ + escape_html_spec(subtitle) + "</p>"@)
            &&& contains_text(page, " data-token=\""@ + escape_html_spec(token) + "\">"@)
            &&& (revision_id matches Some(r) ==> contains_text(
                page,
                "<p class=\"reader-meta\">Revision "@ + escape_html_spec(r) + "</p>"@,
            ))
            &&& (error_message matches Some(m) ==> contains_text(
                page,
                "<section class=\"reader-error\"><h2>Reader unavailable</h2><p>"@
                    + escape_html_spec(m) + "</p></section>"@,
            ))
            &&& (error_message is None ==> contains_text(page, content_html))
        }),
{
    let t = title_markup_spec(title);
    let k = token_markup_spec(token);
    let h = heading_markup_spec(title);
    let sb = subtitle_markup_spec(subtitle);
    let rv = revision_markup_spec(revision_id);
    let bd = body_markup_spec(content_html, error_message);
    let page = reader_shell_spec(token, title, subtitle, revision_id, content_html, error_message);
    let tail = SHELL_ARTICLE@ + bd + SHELL_CLOSE@;
    assert(page =~= SHELL_OPEN@ + t + (SHELL_STYLE@ + k + SHELL_HEADING@ + h + sb + rv + tail));
    lemma_contains_middle(SHELL_OPEN@, t, SHELL_STYLE@ + k + SHELL_HEADING@ + h + sb + rv + tail);
    assert(page =~= (SHELL_OPEN@ + t + SHELL_STYLE@) + k + (SHELL_HEADING@ + h + sb + rv + tail));
    lemma_contains_middle(SHELL_OPEN@ + t + SHELL_STYLE@, k, SHELL_HEADING@ + h + sb + rv + tail);
    assert(page =~= (SHELL_OPEN@ + t + SHELL_STYLE@ + k + SHELL_HEADING@) + h + (sb + rv + tail));
    lemma_contains_middle(SHELL_OPEN@ + t + SHELL_STYLE@ + k + SHELL_HEADING@, h, sb + rv + tail);
    assert(page =~= (SHELL_OPEN@ + t + SHELL_STYLE@ + k + SHELL_HEADING@ + h) + sb + (rv + tail));
    lemma_contains_middle(SHELL_OPEN@ + t + SHELL_STYLE@ + k + SHELL_HEADING@ + h, sb, rv + tail);
    let head = SHELL_OPEN@ + t + SHELL_STYLE@ + k + SHELL_HEADING@ + h + sb;
    assert(page =~= head + rv + tail);
    lemma_contains_middle(head, rv, tail);
    assert(page =~= (head + rv + SHELL_ARTICLE@) + bd + SHELL_CLOSE@);
    lemma_contains_middle(head + rv + SHELL_ARTICLE@, bd, SHELL_CLOSE@);
}

/// The view of an optional string slice.
pub open spec fn opt_str_view(o: Option<&str>) -> Option<Seq<char>> {
    match o {
        Some(s) => Some(s@),
        None => None,
    }
}

/// Renders the standalone reader page: escaped title, subtitle and token in the header, an
/// optional revision line, and either the given content or an escaped error notice.
pub fn render_reader_shell_html(
    token: &str,
    title: &str,
    subtitle: &str,
    revision_id: Option<&str>,
    content_html: &str,
    error_message: Option<&str>,
) -> (r: String)
    ensures
        r@ == reader_shell_spec(
            token@,
            title@,
            subtitle@,
            opt_str_view(revision_id),
            content_html@,
            opt_str_view(error_message),
        ),
{
    let t = chars_of(title);
    let escaped_title = escape_html_chars(t.as_slice());
    let st = chars_of(subtitle);
    let escaped_subtitle = escape_html_chars(st.as_slice());
    let tk = chars_of(token);
    let escaped_token = escape_html_chars(tk.as_slice());
    let mut out: Vec<char> = Vec::new();
    push_str(&mut out, SHELL_OPEN);
    push_str(&mut out, "<title>");
    push_all(&mut out, escaped_title.as_slice());
    push_str(&mut out, " | Reader</title>");
    push_str(&mut out, SHELL_STYLE);
    push_str(&mut out, " data-token=\"");
    push_all(&mut out, escaped_token.as_slice());
    push_str(&mut out, "\">");
    push_str(&mut out, SHELL_HEADING);
    push_str(&mut out, "<h1>");
    push_all(&mut out, escaped_title.as_slice());
    push_str(&mut out, "</h1>");
    push_str(&mut out, "<p>");
    push_all(&mut out, escaped_subtitle.as_slice());
    push_str(&mut out, "</p>");
    match revision_id {
        Some(rev) => {
            push_str(&mut out, "<p class=\"reader-meta\">Revision ");
            let rv = chars_of(rev);
            let er = escape_html_chars(rv.as_slice());
            push_all(&mut out, er.as_slice());
            push_str(&mut out, "</p>");
        },
        None => {},
    }
    push_str(&mut out, SHELL_ARTICLE);
    match error_message {
        Some(m) => {
            push_str(&mut out, "<section class=\"reader-error\"><h2>Reader unavailable</h2><p>");
            let mv = chars_of(m);
            let em = escape_html_chars(mv.as_slice());
            push_all(&mut out, em.as_slice());
            push_str(&mut out, "</p></section>");
        },
        None => {
            push_str(&mut out, content_html);
        },
    }
    push_str(&mut out, SHELL_CLOSE);
    assert(out@ =~= reader_shell_spec(
        token@,
        title@,
        subtitle@,
        opt_str_view(revision_id),
        content_html@,
        opt_str_view(error_message),
    ));
    string_of(out.as_slice())
}

} // verus!
