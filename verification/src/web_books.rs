//! Book workspaces created from the web app, and the conversation registry each keeps.
use vstd::prelude::*;

use crate::text::{
    join_first, join_seqs, split_whitespace, views, words, has_prefix, has_suffix, starts_with, ends_with, chars_eq,
    ascii_lower, chars_of, is_ascii_alnum, is_ascii_alphanumeric, push_all, push_str, string_of,
    to_ascii_lower, trim, trim_seq,
};

verus! {

broadcast use vstd::string::group_string_axioms;

/// The Latin transliteration of a Cyrillic letter (either case); empty for every other
/// character and for the hard and soft signs.
pub open spec fn transliteration(ch: char) -> Seq<char> {
    if ch == 'а' || ch == 'А' {
        "a"@
    } else if ch == 'б' || ch == 'Б' {
        "b"@
    } else if ch == 'в' || ch == 'В' {
        "v"@
    } else if ch == 'г' || ch == 'Г' {
        "g"@
    } else if ch == 'д' || ch == 'Д' {
        "d"@
    } else if ch == 'е' || ch == 'Е' || ch == 'ё' || ch == 'Ё' {
        "e"@
    } else if ch == 'ж' || ch == 'Ж' {
        "zh"@
    } else if ch == 'з' || ch == 'З' {
        "z"@
    } else if ch == 'и' || ch == 'И' || ch == 'й' || ch == 'Й' {
        "i"@
    } else if ch == 'к' || ch == 'К' {
        "k"@
    } else if ch == 'л' || ch == 'Л' {
        "l"@
    } else if ch == 'м' || ch == 'М' {
        "m"@
    } else if ch == 'н' || ch == 'Н' {
        "n"@
    } else if ch == 'о' || ch == 'О' {
        "o"@
    } else if ch == 'п' || ch == 'П' {
        "p"@
    } else if ch == 'р' || ch == 'Р' {
        "r"@
    } else if ch == 'с' || ch == 'С' {
        "s"@
    } else if ch == 'т' || ch == 'Т' {
        "t"@
    } else if ch == 'у' || ch == 'У' {
        "u"@
    } else if ch == 'ф' || ch == 'Ф' {
        "f"@
    } else if ch == 'х' || ch == 'Х' {
        "kh"@
    } else if ch == 'ц' || ch == 'Ц' {
        "ts"@
    } else if ch == 'ч' || ch == 'Ч' {
        "ch"@
    } else if ch == 'ш' || ch == 'Ш' {
        "sh"@
    } else if ch == 'щ' || ch == 'Щ' {
        "shch"@
    } else if ch == 'ы' || ch == 'Ы' {
        "y"@
    } else if ch == 'э' || ch == 'Э' {
        "e"@
    } else if ch == 'ю' || ch == 'Ю' {
        "iu"@
    } else if ch == 'я' || ch == 'Я' {
        "ia"@
    } else {
        seq![]
    }
}

/// The Latin transliteration of a Cyrillic letter.
pub fn transliterate_char(ch: char) -> (r: &'static str)
    ensures
        r@ == transliteration(ch),
{
    proof {
        reveal_strlit("");
    }
    if ch == 'а' || ch == 'А' {
        "a"
    } else if ch == 'б' || ch == 'Б' {
        "b"
    } else if ch == 'в' || ch == 'В' {
        "v"
    } else if ch == 'г' || ch == 'Г' {
        "g"
    } else if ch == 'д' || ch == 'Д' {
        "d"
    } else if ch == 'е' || ch == 'Е' || ch == 'ё' || ch == 'Ё' {
        "e"
    } else if ch == 'ж' || ch == 'Ж' {
        "zh"
    } else if ch == 'з' || ch == 'З' {
        "z"
    } else if ch == 'и' || ch == 'И' || ch == 'й' || ch == 'Й' {
        "i"
    } else if ch == 'к' || ch == 'К' {
        "k"
    } else if ch == 'л' || ch == 'Л' {
        "l"
    } else if ch == 'м' || ch == 'М' {
        "m"
    } else if ch == 'н' || ch == 'Н' {
        "n"
    } else if ch == 'о' || ch == 'О' {
        "o"
    } else if ch == 'п' || ch == 'П' {
        "p"
    } else if ch == 'р' || ch == 'Р' {
        "r"
    } else if ch == 'с' || ch == 'С' {
        "s"
    } else if ch == 'т' || ch == 'Т' {
        "t"
    } else if ch == 'у' || ch == 'У' {
        "u"
    } else if ch == 'ф' || ch == 'Ф' {
        "f"
    } else if ch == 'х' || ch == 'Х' {
        "kh"
    } else if ch == 'ц' || ch == 'Ц' {
        "ts"
    } else if ch == 'ч' || ch == 'Ч' {
        "ch"
    } else if ch == 'ш' || ch == 'Ш' {
        "sh"
    } else if ch == 'щ' || ch == 'Щ' {
        "shch"
    } else if ch == 'ы' || ch == 'Ы' {
        "y"
    } else if ch == 'э' || ch == 'Э' {
        "e"
    } else if ch == 'ю' || ch == 'Ю' {
        "iu"
    } else if ch == 'я' || ch == 'Я' {
        "ia"
    } else {
        ""
    }
}

/// The slug so far, with a separator added when one is pending and the slug is not empty.
pub open spec fn with_separator(slug: Seq<char>, pending: bool) -> Seq<char> {
    if pending && slug.len() > 0 {
        slug.push('-')
    } else {
        slug
    }
}

/// One character of a title applied to the slug state (slug text, separator pending):
/// ASCII letters and digits are kept lower-cased, Cyrillic letters are transliterated, and
/// anything else only asks for a separator before the next kept character.
pub open spec fn slug_step(state: (Seq<char>, bool), ch: char) -> (Seq<char>, bool) {
    if is_ascii_alnum(ch) {
        (with_separator(state.0, state.1).push(ascii_lower(ch)), false)
    } else {
        let t = transliteration(ch);
        if t.len() == 0 {
            (state.0, state.0.len() > 0)
        } else {
            (with_separator(state.0, state.1) + t, false)
        }
    }
}

/// The slug state after reading all of `title`.
pub open spec fn slug_state(title: Seq<char>) -> (Seq<char>, bool)
    decreases title.len(),
{
    if title.len() == 0 {
        (seq![], false)
    } else {
        slug_step(slug_state(title.drop_last()), title.last())
    }
}

/// The directory-safe slug of a title, if it has any letter or digit to keep.
pub open spec fn slugify_book_title_spec(title: Seq<char>) -> Option<Seq<char>> {
    let s = slug_state(title).0;
    if s.len() == 0 {
        None
    } else {
        Some(s)
    }
}

/// Turns a book title into a lower-case ASCII slug: letters and digits are kept, Cyrillic is
/// transliterated, and each run of other characters becomes one `-` between kept text.
pub fn slugify_book_title(title: &str) -> (r: Option<String>)
    ensures
        match r {
            Some(s) => slugify_book_title_spec(title@) == Some(s@),
            None => slugify_book_title_spec(title@) is None,
        },
{
    let t = chars_of(title);
    let mut slug: Vec<char> = Vec::new();
    let mut pending = false;
    let mut i: usize = 0;
    while i < t.len()
        invariant
            i <= t.len(),
            t@ == title@,
            slug_state(t@.take(i as int)) == (slug@, pending),
        decreases t.len() - i,
    {
        let ch = t[i];
        assert(t@.take(i + 1).drop_last() =~= t@.take(i as int));
        assert(t@.take(i + 1).last() == ch);
        if is_ascii_alphanumeric(ch) {
            if pending && slug.len() > 0 {
                slug.push('-');
            }
            slug.push(to_ascii_lower(ch));
            pending = false;
        } else {
            let tr = transliterate_char(ch);
            let tv = chars_of(tr);
            if tv.len() == 0 {
                pending = slug.len() > 0;
            } else {
                if pending && slug.len() > 0 {
                    slug.push('-');
                }
                push_all(&mut slug, tv.as_slice());
                pending = false;
            }
        }
        i = i + 1;
    }
    assert(t@.take(t.len() as int) =~= t@);
    if slug.len() == 0 {
        None
    } else {
        Some(string_of(slug.as_slice()))
    }
}

/// A character that may appear in a slug.
pub open spec fn slug_char(c: char) -> bool {
    ('a' <= c <= 'z') || ('0' <= c <= '9') || c == '-'
}

/// The shape of a safe slug: lower-case ASCII letters, digits and single `-` separators,
/// never at either end.
pub open spec fn is_safe_slug(s: Seq<char>) -> bool {
    &&& forall|k: int| 0 <= k < s.len() ==> slug_char(#[trigger] s[k])
    &&& s.len() > 0 ==> s[0] != '-' && s.last() != '-'
    &&& forall|k: int| 0 <= k < s.len() - 1 ==> !(#[trigger] s[k] == '-' && s[k + 1] == '-')
}

proof fn lemma_transliteration_letters(ch: char)
    ensures
        forall|k: int|
            0 <= k < transliteration(ch).len() ==> 'a' <= #[trigger] transliteration(ch)[k] <= 'z',
{
    reveal_strlit("a");
    reveal_strlit("b");
    reveal_strlit("v");
    reveal_strlit("g");
    reveal_strlit("d");
    reveal_strlit("e");
    reveal_strlit("zh");
    reveal_strlit("z");
    reveal_strlit("i");
    reveal_strlit("k");
    reveal_strlit("l");
    reveal_strlit("m");
    reveal_strlit("n");
    reveal_strlit("o");
    reveal_strlit("p");
    reveal_strlit("r");
    reveal_strlit("s");
    reveal_strlit("t");
    reveal_strlit("u");
    reveal_strlit("f");
    reveal_strlit("kh");
    reveal_strlit("ts");
    reveal_strlit("ch");
    reveal_strlit("sh");
    reveal_strlit("shch");
    reveal_strlit("y");
    reveal_strlit("iu");
    reveal_strlit("ia");
}

proof fn lemma_slug_state_safe(title: Seq<char>)
    ensures
        is_safe_slug(slug_state(title).0),
    decreases title.len(),
{
    if title.len() > 0 {
        lemma_slug_state_safe(title.drop_last());
        let st = slug_state(title.drop_last());
        let ch = title.last();
        let base = with_separator(st.0, st.1);
        assert(is_safe_slug(st.0));
        assert(forall|k: int| 0 <= k < base.len() ==> slug_char(#[trigger] base[k]));
        assert(forall|k: int| 0 <= k < base.len() - 1 ==> !(#[trigger] base[k] == '-' && base[k + 1] == '-'));
        if is_ascii_alnum(ch) {
            let out = base.push(ascii_lower(ch));
            assert(slug_char(ascii_lower(ch)));
            assert(forall|k: int| 0 <= k < out.len() ==> slug_char(#[trigger] out[k]));
            assert(out[0] != '-');
        } else {
            let t = transliteration(ch);
            lemma_transliteration_letters(ch);
            if t.len() > 0 {
                let out = base + t;
                assert forall|k: int| 0 <= k < out.len() implies slug_char(#[trigger] out[k]) by {
                    if k >= base.len() {
                        assert(out[k] == t[k - base.len()]);
                    }
                }
                assert forall|k: int| 0 <= k < out.len() - 1 implies !(#[trigger] out[k] == '-'
                    && out[k + 1] == '-') by {
                    if k + 1 >= base.len() {
                        assert(out[k + 1] == t[k + 1 - base.len()]);
                    }
                }
                assert(out.last() == t.last());
                if base.len() > 0 {
                    assert(out[0] == base[0]);
                } else {
                    assert(out[0] == t[0]);
                }
            }
        }
    }
}

/// Every slug made from a title is safe as a directory name: lower-case ASCII letters, digits
/// and single inner `-` separators only.
pub proof fn law_slug_is_directory_safe(title: Seq<char>)
    ensures
        slugify_book_title_spec(title) matches Some(s) ==> is_safe_slug(s),
{
    lemma_slug_state_safe(title);
}


/// A letter of the Russian alphabet, lower or upper case (`а`–`я`, `ё`, `А`–`Я`, `Ё`),
/// other than the hard and soft signs.
pub open spec fn russian_letter(c: char) -> bool {
    let n = c as u32;
    &&& (0x410 <= n <= 0x44F || n == 0x401 || n == 0x451)
    &&& n != 0x42A && n != 0x44A && n != 0x42C && n != 0x44C
}

/// The lower-case form of a Russian letter.
pub open spec fn russian_lower(c: char) -> char {
    let n = c as u32;
    if 0x410 <= n <= 0x42F {
        (n + 0x20) as char
    } else if n == 0x401 {
        'ё'
    } else {
        c
    }
}

/// Every Russian letter but the two signs has a transliteration: one or more lower-case
/// Latin letters, the same for its upper- and lower-case forms; the signs have none.
pub proof fn law_russian_letters_are_transliterated(c: char)
    ensures
        russian_letter(c) ==> transliteration(c).len() > 0 && transliteration(c)
            == transliteration(russian_lower(c)),
        forall|k: int|
            0 <= k < transliteration(c).len() ==> 'a' <= #[trigger] transliteration(c)[k] <= 'z',
        c == 'ъ' || c == 'ь' || c == 'Ъ' || c == 'Ь' ==> transliteration(c).len() == 0,
{
    lemma_transliteration_letters(c);
    reveal_strlit("");
    reveal_strlit("a");
    reveal_strlit("b");
    reveal_strlit("v");
    reveal_strlit("g");
    reveal_strlit("d");
    reveal_strlit("e");
    reveal_strlit("zh");
    reveal_strlit("z");
    reveal_strlit("i");
    reveal_strlit("k");
    reveal_strlit("l");
    reveal_strlit("m");
    reveal_strlit("n");
    reveal_strlit("o");
    reveal_strlit("p");
    reveal_strlit("r");
    reveal_strlit("s");
    reveal_strlit("t");
    reveal_strlit("u");
    reveal_strlit("f");
    reveal_strlit("kh");
    reveal_strlit("ts");
    reveal_strlit("ch");
    reveal_strlit("sh");
    reveal_strlit("shch");
    reveal_strlit("y");
    reveal_strlit("iu");
    reveal_strlit("ia");
}

/// The Latin letters each lower-case Russian letter is written with in a slug (upper-case
/// letters are written as their lower-case forms, see `law_russian_letters_are_transliterated`).
pub proof fn law_transliteration_table()
    ensures
        transliteration('а') == "a"@,
        transliteration('б') == "b"@,
        transliteration('в') == "v"@,
        transliteration('г') == "g"@,
        transliteration('д') == "d"@,
        transliteration('е') == "e"@,
        transliteration('ё') == "e"@,
        transliteration('ж') == "zh"@,
        transliteration('з') == "z"@,
        transliteration('и') == "i"@,
        transliteration('й') == "i"@,
        transliteration('к') == "k"@,
        transliteration('л') == "l"@,
        transliteration('м') == "m"@,
        transliteration('н') == "n"@,
        transliteration('о') == "o"@,
        transliteration('п') == "p"@,
        transliteration('р') == "r"@,
        transliteration('с') == "s"@,
        transliteration('т') == "t"@,
        transliteration('у') == "u"@,
        transliteration('ф') == "f"@,
        transliteration('х') == "kh"@,
        transliteration('ц') == "ts"@,
        transliteration('ч') == "ch"@,
        transliteration('ш') == "sh"@,
        transliteration('щ') == "shch"@,
        transliteration('ы') == "y"@,
        transliteration('э') == "e"@,
        transliteration('ю') == "iu"@,
        transliteration('я') == "ia"@,
{
    reveal_strlit("a");
    reveal_strlit("b");
    reveal_strlit("ch");
    reveal_strlit("d");
    reveal_strlit("e");
    reveal_strlit("f");
    reveal_strlit("g");
    reveal_strlit("i");
    reveal_strlit("ia");
    reveal_strlit("iu");
    reveal_strlit("k");
    reveal_strlit("kh");
    reveal_strlit("l");
    reveal_strlit("m");
    reveal_strlit("n");
    reveal_strlit("o");
    reveal_strlit("p");
    reveal_strlit("r");
    reveal_strlit("s");
    reveal_strlit("sh");
    reveal_strlit("shch");
    reveal_strlit("t");
    reveal_strlit("ts");
    reveal_strlit("u");
    reveal_strlit("v");
    reveal_strlit("y");
    reveal_strlit("z");
    reveal_strlit("zh");
}

/// A title written only in ASCII letters and digits and Russian letters other than the
/// signs is one word: its slug has no `-`, and no fewer characters than the title.
pub proof fn law_one_word_titles_have_unbroken_slugs(title: Seq<char>)
    requires
        title.len() > 0,
        forall|i: int| 0 <= i < title.len() ==> is_ascii_alnum(#[trigger] title[i]) || russian_letter(title[i]),
    ensures
        slugify_book_title_spec(title) matches Some(s) && s.len() >= title.len() && forall|k: int|
            0 <= k < s.len() ==> #[trigger] s[k] != '-',
{
    lemma_unbroken_slug(title);
}

proof fn lemma_unbroken_slug(title: Seq<char>)
    requires
        forall|i: int| 0 <= i < title.len() ==> is_ascii_alnum(#[trigger] title[i]) || russian_letter(title[i]),
    ensures
        !slug_state(title).1,
        slug_state(title).0.len() >= title.len(),
        forall|k: int| 0 <= k < slug_state(title).0.len() ==> #[trigger] slug_state(title).0[k] != '-',
    decreases title.len(),
{
    if title.len() > 0 {
        let t = title.drop_last();
        assert forall|i: int| 0 <= i < t.len() implies is_ascii_alnum(#[trigger] t[i]) || russian_letter(t[i]) by {
            assert(t[i] == title[i]);
        }
        lemma_unbroken_slug(t);
        let c = title.last();
        let prev = slug_state(t);
        assert(with_separator(prev.0, prev.1) == prev.0);
        if is_ascii_alnum(c) {
            let x = prev.0.push(ascii_lower(c));
            assert(ascii_lower(c) != '-');
            assert forall|k: int| 0 <= k < x.len() implies #[trigger] x[k] != '-' by {
                if k < prev.0.len() {
                    assert(x[k] == prev.0[k]);
                }
            }
        } else {
            law_russian_letters_are_transliterated(c);
            let tr = transliteration(c);
            let x = prev.0 + tr;
            assert forall|k: int| 0 <= k < x.len() implies #[trigger] x[k] != '-' by {
                if k < prev.0.len() {
                    assert(x[k] == prev.0[k]);
                } else {
                    assert(x[k] == tr[k - prev.0.len()]);
                }
            }
        }
    }
}

/// A character a slug keeps something of: an ASCII letter or digit, or a letter with a
/// transliteration.
pub open spec fn kept_char(c: char) -> bool {
    is_ascii_alnum(c) || transliteration(c).len() > 0
}

proof fn lemma_slug_empty(title: Seq<char>)
    ensures
        slug_state(title).0.len() == 0 <==> forall|i: int|
            0 <= i < title.len() ==> !kept_char(#[trigger] title[i]),
    decreases title.len(),
{
    if title.len() > 0 {
        let t = title.drop_last();
        lemma_slug_empty(t);
        assert forall|i: int| 0 <= i < t.len() implies #[trigger] t[i] == title[i] by {}
        let c = title.last();
        let prev = slug_state(t);
        let next = slug_step(prev, c);
        assert(slug_state(title) == next);
        if is_ascii_alnum(c) {
            assert(next.0.len() > 0);
        } else if transliteration(c).len() > 0 {
            assert(next.0.len() >= transliteration(c).len());
        } else {
            assert(next.0 == prev.0);
        }
        if forall|i: int| 0 <= i < title.len() ==> !kept_char(#[trigger] title[i]) {
            assert(!kept_char(title[title.len() - 1]));
            assert(forall|i: int| 0 <= i < t.len() ==> !kept_char(#[trigger] t[i]));
        }
        if slug_state(title).0.len() == 0 {
            assert(!kept_char(c));
            assert forall|i: int| 0 <= i < title.len() implies !kept_char(#[trigger] title[i]) by {
                if i < t.len() {
                    assert(t[i] == title[i]);
                }
            }
        }
    }
}

proof fn lemma_slug_reads_itself(s: Seq<char>, k: int)
    requires
        is_safe_slug(s),
        0 <= k <= s.len(),
    ensures
        slug_state(s.take(k)) == if k > 0 && s[k - 1] == '-' {
            (s.take(k - 1), true)
        } else {
            (s.take(k), false)
        },
    decreases k,
{
    if k > 0 {
        lemma_slug_reads_itself(s, k - 1);
        let p = s.take(k);
        assert(p.drop_last() =~= s.take(k - 1));
        assert(p.last() == s[k - 1]);
        let c = s[k - 1];
        assert(slug_char(c));
        reveal_strlit("");
        if c == '-' {
            assert(k - 1 > 0) by {
                if k - 1 == 0 {
                    assert(s[0] != '-');
                }
            }
            assert(s[k - 2] != '-');
            assert(transliteration(c) == ""@);
            assert(s.take(k - 1).len() > 0);
        } else {
            assert(is_ascii_alnum(c));
            assert(ascii_lower(c) == c);
            if k >= 2 && s[k - 2] == '-' {
                assert(s.take(k - 2).push('-').push(c) =~= p);
            } else {
                assert(s.take(k - 1).push(c) =~= p);
            }
        }
    }
}

/// A title has a slug exactly when it has a character to keep (an ASCII letter or digit,
/// or a letter with a transliteration), and a slug is its own slug.
pub proof fn law_slug_presence_and_idempotence(title: Seq<char>)
    ensures
        slugify_book_title_spec(title) is None <==> forall|i: int|
            0 <= i < title.len() ==> !kept_char(#[trigger] title[i]),
        slugify_book_title_spec(title) matches Some(s) ==> slugify_book_title_spec(s) == Some(s),
{
    lemma_slug_empty(title);
    match slugify_book_title_spec(title) {
        Some(s) => {
            law_slug_is_directory_safe(title);
            lemma_slug_reads_itself(s, s.len() as int);
            assert(s.take(s.len() as int) =~= s);
        },
        None => {},
    }
}

/// A title from free text: its first six words joined by single spaces, with `...` when
/// there were more; `None` for text without words.
pub open spec fn title_from_text(value: Seq<char>) -> Option<Seq<char>> {
    let ws = words(value);
    if ws.len() == 0 {
        None
    } else if ws.len() <= 6 {
        Some(join_seqs(ws, " "@))
    } else {
        Some(join_seqs(ws.take(6), " "@) + "..."@)
    }
}

/// A short title from free text: at most six words, `...` marking the cut.
pub fn normalize_inferred_title(value: &str) -> (r: Option<String>)
    ensures
        match r {
            Some(t) => title_from_text(value@) == Some(t@),
            None => title_from_text(value@) is None,
        },
{
    let v = chars_of(value);
    let ws = split_whitespace(v.as_slice());
    assert(views(ws@).len() == ws@.len());
    if ws.len() == 0 {
        return None;
    }
    let sp = chars_of(" ");
    if ws.len() <= 6 {
        let j = join_first(&ws, ws.len(), sp.as_slice());
        assert(views(ws@).take(ws.len() as int) =~= views(ws@));
        Some(string_of(j.as_slice()))
    } else {
        let mut j = join_first(&ws, 6, sp.as_slice());
        push_str(&mut j, "...");
        Some(string_of(j.as_slice()))
    }
}

/// A book title with surrounding whitespace removed; `None` when nothing is left.
pub open spec fn normalize_title_spec(title: Seq<char>) -> Option<Seq<char>> {
    let t = trim_seq(title);
    if t.len() == 0 {
        None
    } else {
        Some(t)
    }
}

/// A book title with surrounding whitespace removed, if anything is left.
pub fn normalize_title(title: &str) -> (r: Option<String>)
    ensures
        match r {
            Some(t) => normalize_title_spec(title@) == Some(t@),
            None => normalize_title_spec(title@) is None,
        },
{
    let v = chars_of(title);
    let t = trim(v.as_slice());
    if t.len() == 0 {
        None
    } else {
        Some(string_of(t.as_slice()))
    }
}

/// The prompt that opens every web conversation session.
pub const WEB_MESSENGER_BOOTSTRAP_PROMPT: &'static str = "Initialize a new web messenger conversation for this book workspace. Reply with exactly: Session ready.";

/// The reply the agent gives to the bootstrap prompt.
pub const WEB_MESSENGER_BOOTSTRAP_REPLY: &'static str = "Session ready.";

/// Whether text is an environment-context block the agent injects.
pub open spec fn is_environment_context_spec(text: Seq<char>) -> bool {
    let t = trim_seq(text);
    has_prefix(t, "<environment_context>"@) && has_suffix(t, "</environment_context>"@)
}

/// Whether a user message is bookkeeping rather than something the author wrote.
pub open spec fn is_internal_text_spec(text: Seq<char>) -> bool {
    ||| has_prefix(text, "# AGENTS.md instructions for "@)
    ||| text == WEB_MESSENGER_BOOTSTRAP_PROMPT@
    ||| is_environment_context_spec(text)
}

/// Whether text is an environment-context block.
pub fn is_environment_context_message(text: &str) -> (r: bool)
    ensures
        r == is_environment_context_spec(text@),
{
    let v = chars_of(text);
    let t = trim(v.as_slice());
    let open = chars_of("<environment_context>");
    let close = chars_of("</environment_context>");
    starts_with(t.as_slice(), open.as_slice()) && ends_with(t.as_slice(), close.as_slice())
}

/// Whether a user message is bookkeeping: agent instructions, the bootstrap prompt, or an
/// environment-context block.
pub fn is_internal_transcript_text(text: &str) -> (r: bool)
    ensures
        r == is_internal_text_spec(text@),
{
    let v = chars_of(text);
    let agents = chars_of("# AGENTS.md instructions for ");
    let boot = chars_of(WEB_MESSENGER_BOOTSTRAP_PROMPT);
    starts_with(v.as_slice(), agents.as_slice()) || chars_eq(v.as_slice(), boot.as_slice())
        || is_environment_context_message(text)
}

} // verus!
