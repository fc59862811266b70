//! Character-level text operations shared by the rest of the library.
//!
//! Strings are modelled by their `Seq<char>` view; every operation here is
//! specified by a spec function over that view.
use vstd::prelude::*;

verus! {

broadcast use vstd::string::group_string_axioms;

/// The Unicode `White_Space` property, which `char::is_whitespace` tests.
pub open spec fn is_ws(c: char) -> bool {
    let n = c as u32;
    ||| 0x9 <= n <= 0xD
    ||| n == 0x20
    ||| n == 0x85
    ||| n == 0xA0
    ||| n == 0x1680
    ||| 0x2000 <= n <= 0x200A
    ||| n == 0x2028
    ||| n == 0x2029
    ||| n == 0x202F
    ||| n == 0x205F
    ||| n == 0x3000
}

/// Tests `c` for the Unicode `White_Space` property.
pub fn is_whitespace(c: char) -> (r: bool)
    ensures
        r == is_ws(c),
{
    let n = c as u32;
    (0x9 <= n && n <= 0xD) || n == 0x20 || n == 0x85 || n == 0xA0 || n == 0x1680 || (0x2000 <= n
        && n <= 0x200A) || n == 0x2028 || n == 0x2029 || n == 0x202F || n == 0x205F || n == 0x3000
}

/// The characters of `s`, in order.
pub fn chars_of(s: &str) -> (v: Vec<char>)
    ensures
        v@ == s@,
{
    let mut v: Vec<char> = Vec::new();
    for c in it: s.chars()
        invariant
            it.seq() == s@,
            v@ == it.seq().take(it.index() as int),
    {
        v.push(c);
    }
    v
}

/// Appends one character to a `String` (`String::push`).
#[verifier::external_body]
pub(crate) fn push_char(s: &mut String, c: char)
    ensures
        final(s)@ == old(s)@.push(c),
{
    s.push(c);
}

/// A `String` holding exactly the characters of `v`.
pub fn string_of(v: &[char]) -> (s: String)
    ensures
        s@ == v@,
{
    let mut s = String::new();
    let mut i: usize = 0;
    while i < v.len()
        invariant
            i <= v.len(),
            s@ == v@.take(i as int),
        decreases v.len() - i,
    {
        push_char(&mut s, v[i]);
        i = i + 1;
        assert(s@ == v@.take(i as int));
    }
    assert(v@.take(v.len() as int) == v@);
    s
}


/// `s` without its leading whitespace (`str::trim_start`).
pub open spec fn trim_start_seq(s: Seq<char>) -> Seq<char>
    decreases s.len(),
{
    if s.len() > 0 && is_ws(s[0]) {
        trim_start_seq(s.drop_first())
    } else {
        s
    }
}

/// `s` without its trailing whitespace (`str::trim_end`).
pub open spec fn trim_end_seq(s: Seq<char>) -> Seq<char>
    decreases s.len(),
{
    if s.len() > 0 && is_ws(s.last()) {
        trim_end_seq(s.drop_last())
    } else {
        s
    }
}

/// `s` without leading or trailing whitespace (`str::trim`).
pub open spec fn trim_seq(s: Seq<char>) -> Seq<char> {
    trim_end_seq(trim_start_seq(s))
}

/// `p` is a prefix of `s`.
pub open spec fn has_prefix(s: Seq<char>, p: Seq<char>) -> bool {
    p.len() <= s.len() && s.take(p.len() as int) == p
}

/// `p` is a suffix of `s`.
pub open spec fn has_suffix(s: Seq<char>, p: Seq<char>) -> bool {
    p.len() <= s.len() && s.skip(s.len() - p.len()) == p
}

/// `s` with the prefix `p` removed, when `s` starts with `p` (`str::strip_prefix`).
pub open spec fn strip_prefix_seq(s: Seq<char>, p: Seq<char>) -> Option<Seq<char>> {
    if has_prefix(s, p) {
        Some(s.skip(p.len() as int))
    } else {
        None
    }
}

proof fn lemma_trim_start_step(s: Seq<char>, i: int)
    requires
        0 <= i < s.len(),
        is_ws(s[i]),
    ensures
        trim_start_seq(s.skip(i)) == trim_start_seq(s.skip(i + 1)),
{
    assert(s.skip(i).drop_first() =~= s.skip(i + 1));
}

proof fn lemma_trim_end_step(s: Seq<char>, j: int)
    requires
        0 < j <= s.len(),
        is_ws(s[j - 1]),
    ensures
        trim_end_seq(s.take(j)) == trim_end_seq(s.take(j - 1)),
{
    assert(s.take(j).drop_last() =~= s.take(j - 1));
}

/// Index of the first character of `s[from..]` that is not whitespace.
fn skip_ws_from(s: &[char], from: usize) -> (i: usize)
    requires
        from <= s.len(),
    ensures
        from <= i <= s.len(),
        trim_start_seq(s@.skip(from as int)) == s@.skip(i as int),
{
    let mut i = from;
    while i < s.len() && is_whitespace(s[i])
        invariant
            from <= i <= s.len(),
            trim_start_seq(s@.skip(from as int)) == trim_start_seq(s@.skip(i as int)),
        decreases s.len() - i,
    {
        proof {
            lemma_trim_start_step(s@, i as int);
        }
        i = i + 1;
    }
    proof {
        if i == s.len() {
            assert(s@.skip(i as int).len() == 0);
        } else {
            assert(s@.skip(i as int)[0] == s@[i as int]);
        }
    }
    i
}

/// End index (exclusive) of `s[..to]` once trailing whitespace is removed.
fn trim_end_to(s: &[char], to: usize) -> (j: usize)
    requires
        to <= s.len(),
    ensures
        j <= to,
        trim_end_seq(s@.take(to as int)) == s@.take(j as int),
{
    let mut j = to;
    while j > 0 && is_whitespace(s[j - 1])
        invariant
            j <= to <= s.len(),
            trim_end_seq(s@.take(to as int)) == trim_end_seq(s@.take(j as int)),
        decreases j,
    {
        proof {
            lemma_trim_end_step(s@, j as int);
        }
        j = j - 1;
    }
    proof {
        if j > 0 {
            assert(s@.take(j as int).last() == s@[j - 1]);
        }
    }
    j
}

/// `s` without leading whitespace.
pub fn trim_start(s: &[char]) -> (r: Vec<char>)
    ensures
        r@ == trim_start_seq(s@),
{
    let i = skip_ws_from(s, 0);
    assert(s@.skip(0) =~= s@);
    slice_range(s, i, s.len())
}

/// `s` without trailing whitespace.
pub fn trim_end(s: &[char]) -> (r: Vec<char>)
    ensures
        r@ == trim_end_seq(s@),
{
    let j = trim_end_to(s, s.len());
    assert(s@.take(s.len() as int) =~= s@);
    slice_range(s, 0, j)
}

/// `s` without leading or trailing whitespace.
pub fn trim(s: &[char]) -> (r: Vec<char>)
    ensures
        r@ == trim_seq(s@),
{
    let t = trim_start(s);
    trim_end(t.as_slice())
}

/// The characters `s[lo..hi]`.
pub fn slice_range(s: &[char], lo: usize, hi: usize) -> (r: Vec<char>)
    requires
        lo <= hi <= s.len(),
    ensures
        r@ == s@.subrange(lo as int, hi as int),
{
    let mut r: Vec<char> = Vec::new();
    let mut k = lo;
    while k < hi
        invariant
            lo <= k <= hi <= s.len(),
            r@ == s@.subrange(lo as int, k as int),
        decreases hi - k,
    {
        r.push(s[k]);
        k = k + 1;
        assert(r@ =~= s@.subrange(lo as int, k as int));
    }
    r
}

/// Whether `a` and `b` hold the same characters.
pub fn chars_eq(a: &[char], b: &[char]) -> (r: bool)
    ensures
        r == (a@ == b@),
{
    if a.len() != b.len() {
        return false;
    }
    let mut i: usize = 0;
    while i < a.len()
        invariant
            i <= a.len() == b.len(),
            forall|k: int| 0 <= k < i ==> a@[k] == b@[k],
        decreases a.len() - i,
    {
        if a[i] != b[i] {
            return false;
        }
        i = i + 1;
    }
    assert(a@ =~= b@);
    true
}

/// Whether `s` starts with `p`.
pub fn starts_with(s: &[char], p: &[char]) -> (r: bool)
    ensures
        r == has_prefix(s@, p@),
{
    if p.len() > s.len() {
        return false;
    }
    let mut i: usize = 0;
    while i < p.len()
        invariant
            i <= p.len() <= s.len(),
            forall|k: int| 0 <= k < i ==> s@[k] == p@[k],
        decreases p.len() - i,
    {
        if s[i] != p[i] {
            assert(s@.take(p.len() as int)[i as int] != p@[i as int]);
            return false;
        }
        i = i + 1;
    }
    assert(s@.take(p.len() as int) =~= p@);
    true
}

/// Whether `s` ends with `p`.
pub fn ends_with(s: &[char], p: &[char]) -> (r: bool)
    ensures
        r == has_suffix(s@, p@),
{
    if p.len() > s.len() {
        return false;
    }
    let off = s.len() - p.len();
    let mut i: usize = 0;
    while i < p.len()
        invariant
            i <= p.len() <= s.len(),
            off == s.len() - p.len(),
            forall|k: int| 0 <= k < i ==> s@[off + k] == p@[k],
        decreases p.len() - i,
    {
        if s[off + i] != p[i] {
            assert(s@.skip(off as int)[i as int] != p@[i as int]);
            return false;
        }
        i = i + 1;
    }
    assert(s@.skip(off as int) =~= p@);
    true
}

/// `s` with the prefix `p` removed, when present.
pub fn strip_prefix(s: &[char], p: &[char]) -> (r: Option<Vec<char>>)
    ensures
        match r {
            Some(v) => strip_prefix_seq(s@, p@) == Some(v@),
            None => strip_prefix_seq(s@, p@) is None,
        },
{
    if starts_with(s, p) {
        Some(slice_range(s, p.len(), s.len()))
    } else {
        None
    }
}


/// The whitespace-separated words of `s` (`str::split_whitespace`), read left to right.
pub open spec fn words(s: Seq<char>) -> Seq<Seq<char>>
    decreases s.len(),
{
    if s.len() == 0 {
        seq![]
    } else {
        let prev = words(s.drop_last());
        let c = s.last();
        if is_ws(c) {
            prev
        } else if s.len() >= 2 && !is_ws(s[s.len() - 2]) {
            prev.update(prev.len() - 1, prev.last().push(c))
        } else {
            prev.push(seq![c])
        }
    }
}

/// The character views of a vector of words.
pub open spec fn views(v: Seq<Vec<char>>) -> Seq<Seq<char>> {
    v.map_values(|w: Vec<char>| w@)
}

/// A word is in progress at the end of `s` exactly when `s` ends with a non-whitespace character.
proof fn lemma_words_open_word(s: Seq<char>)
    requires
        s.len() > 0,
        !is_ws(s.last()),
    ensures
        words(s).len() > 0,
    decreases s.len(),
{
    let t = s.drop_last();
    if s.len() >= 2 && !is_ws(s[s.len() - 2]) {
        assert(t.last() == s[s.len() - 2]);
        lemma_words_open_word(t);
    }
}

/// The whitespace-separated words of `s`.
pub fn split_whitespace(s: &[char]) -> (r: Vec<Vec<char>>)
    ensures
        views(r@) == words(s@),
{
    let mut out: Vec<Vec<char>> = Vec::new();
    let mut cur: Vec<char> = Vec::new();
    let mut in_word = false;
    let mut i: usize = 0;
    while i < s.len()
        invariant
            i <= s.len(),
            in_word == (i > 0 && !is_ws(s@[i - 1])),
            !in_word ==> cur@.len() == 0,
            words(s@.take(i as int)) == if in_word {
                views(out@).push(cur@)
            } else {
                views(out@)
            },
        decreases s.len() - i,
    {
        let c = s[i];
        let ghost prev = s@.take(i as int);
        let ghost old_out = views(out@);
        let ghost old_cur = cur@;
        assert(s@.take(i + 1).drop_last() =~= prev);
        assert(s@.take(i + 1).last() == c);
        if is_whitespace(c) {
            if in_word {
                let w = cur;
                cur = Vec::new();
                out.push(w);
                assert(views(out@) =~= old_out.push(old_cur));
            }
            in_word = false;
        } else {
            if in_word {
                assert(s@.take(i + 1)[i - 1] == s@[i - 1]);
                cur.push(c);
                assert(views(out@).push(cur@) =~= old_out.push(old_cur).update(
                    old_out.len() as int,
                    old_cur.push(c),
                ));
            } else {
                proof {
                    if i >= 1 {
                        assert(s@.take(i + 1)[i - 1] == s@[i - 1]);
                    }
                }
                cur = Vec::new();
                cur.push(c);
                assert(cur@ =~= seq![c]);
            }
            in_word = true;
        }
        i = i + 1;
    }
    let ghost before = views(out@);
    let ghost last = cur@;
    if in_word {
        out.push(cur);
        assert(views(out@) =~= before.push(last));
    }
    assert(s@.take(s.len() as int) =~= s@);
    out
}


/// The Unicode lowercase form of a string, as `str::to_lowercase` computes it from the
/// Unicode case tables; it depends on the characters of the string alone.
pub uninterp spec fn unicode_lowercase(s: Seq<char>) -> Seq<char>;

/// Whether every character of `s` is ASCII.
pub open spec fn all_ascii(s: Seq<char>) -> bool {
    forall|i: int| 0 <= i < s.len() ==> (#[trigger] s[i] as u32) < 128
}

/// `str::to_lowercase`: the string mapped through Unicode lowercasing. Its result is the
/// name `unicode_lowercase` applied to the argument. Of ASCII text the documented
/// lowercase mapping is ASCII's own (`A`–`Z` to `a`–`z`, every other character kept), and
/// the contract says so; of other text it claims nothing more.
#[verifier::external_body]
pub(crate) fn to_lowercase(s: &str) -> (r: String)
    ensures
        r@ == unicode_lowercase(s@),
        all_ascii(s@) ==> r@ == ascii_lower_seq(s@),
{
    s.to_lowercase()
}

/// `c` with ASCII upper-case letters mapped to lower case (`char::to_ascii_lowercase`).
pub open spec fn ascii_lower(c: char) -> char {
    if 'A' <= c <= 'Z' {
        ((c as u32) + 32) as char
    } else {
        c
    }
}

/// Whether `c` is an ASCII letter or digit (`char::is_ascii_alphanumeric`).
pub open spec fn is_ascii_alnum(c: char) -> bool {
    ||| 'a' <= c <= 'z'
    ||| 'A' <= c <= 'Z'
    ||| '0' <= c <= '9'
}

/// `char::to_ascii_lowercase`.
pub fn to_ascii_lower(c: char) -> (r: char)
    ensures
        r == ascii_lower(c),
{
    if 'A' <= c && c <= 'Z' {
        let n = (c as u8) + 32;
        n as char
    } else {
        c
    }
}

/// `char::is_ascii_alphanumeric`.
pub fn is_ascii_alphanumeric(c: char) -> (r: bool)
    ensures
        r == is_ascii_alnum(c),
{
    ('a' <= c && c <= 'z') || ('A' <= c && c <= 'Z') || ('0' <= c && c <= '9')
}

/// Every character of `s` mapped through `ascii_lower` (`str::to_ascii_lowercase`).
pub open spec fn ascii_lower_seq(s: Seq<char>) -> Seq<char> {
    s.map_values(|c: char| ascii_lower(c))
}

/// `str::to_ascii_lowercase` over characters.
pub fn to_ascii_lowercase(s: &[char]) -> (r: Vec<char>)
    ensures
        r@ == ascii_lower_seq(s@),
{
    let mut r: Vec<char> = Vec::new();
    let mut i: usize = 0;
    while i < s.len()
        invariant
            i <= s.len(),
            r@ == ascii_lower_seq(s@.take(i as int)),
        decreases s.len() - i,
    {
        r.push(to_ascii_lower(s[i]));
        i = i + 1;
        assert(r@ =~= ascii_lower_seq(s@.take(i as int)));
    }
    assert(s@.take(s.len() as int) =~= s@);
    r
}

/// The concatenation of `a` and `b`.
pub fn concat(a: &[char], b: &[char]) -> (r: Vec<char>)
    ensures
        r@ == a@ + b@,
{
    let mut r: Vec<char> = Vec::new();
    let mut i: usize = 0;
    while i < a.len()
        invariant
            i <= a.len(),
            r@ == a@.take(i as int),
        decreases a.len() - i,
    {
        r.push(a[i]);
        i = i + 1;
        assert(r@ =~= a@.take(i as int));
    }
    let mut j: usize = 0;
    while j < b.len()
        invariant
            i == a.len(),
            j <= b.len(),
            r@ == a@ + b@.take(j as int),
        decreases b.len() - j,
    {
        r.push(b[j]);
        j = j + 1;
        assert(r@ =~= a@ + b@.take(j as int));
    }
    assert(b@.take(b.len() as int) =~= b@);
    r
}

/// Appends the characters of `b` to `a`.
pub fn push_all(a: &mut Vec<char>, b: &[char])
    ensures
        final(a)@ == old(a)@ + b@,
{
    let mut j: usize = 0;
    while j < b.len()
        invariant
            j <= b.len(),
            a@ == old(a)@ + b@.take(j as int),
        decreases b.len() - j,
    {
        a.push(b[j]);
        j = j + 1;
        assert(a@ =~= old(a)@ + b@.take(j as int));
    }
    assert(b@.take(b.len() as int) =~= b@);
}

/// Appends the characters of the string `b` to `a`.
pub fn push_str(a: &mut Vec<char>, b: &str)
    ensures
        final(a)@ == old(a)@ + b@,
{
    let v = chars_of(b);
    push_all(a, v.as_slice());
}


/// The decimal digit character for `d < 10`.
pub open spec fn digit_char(d: nat) -> char {
    (48 + d) as char
}

/// The decimal representation of `n`, without leading zeros.
pub open spec fn decimal(n: nat) -> Seq<char>
    decreases n,
{
    if n < 10 {
        seq![digit_char(n)]
    } else {
        decimal(n / 10).push(digit_char(n % 10))
    }
}

/// The decimal representation of `n`.
pub fn decimal_u64(n: u64) -> (r: Vec<char>)
    ensures
        r@ == decimal(n as nat),
    decreases n,
{
    let d = (n % 10) as u8;
    let c = (48u8 + d) as char;
    assert(c == digit_char((n % 10) as nat));
    if n < 10 {
        let mut v: Vec<char> = Vec::new();
        v.push(c);
        assert(v@ =~= seq![c]);
        v
    } else {
        let mut v = decimal_u64(n / 10);
        v.push(c);
        v
    }
}

/// `s` without leading copies of `c`.
pub open spec fn trim_char_start_seq(s: Seq<char>, c: char) -> Seq<char>
    decreases s.len(),
{
    if s.len() > 0 && s[0] == c {
        trim_char_start_seq(s.drop_first(), c)
    } else {
        s
    }
}

/// `s` without trailing copies of `c` (`str::trim_end_matches` with one character).
pub open spec fn trim_char_end_seq(s: Seq<char>, c: char) -> Seq<char>
    decreases s.len(),
{
    if s.len() > 0 && s.last() == c {
        trim_char_end_seq(s.drop_last(), c)
    } else {
        s
    }
}

/// `s` without leading or trailing copies of `c` (`str::trim_matches` with one character).
pub open spec fn trim_char_seq(s: Seq<char>, c: char) -> Seq<char> {
    trim_char_end_seq(trim_char_start_seq(s, c), c)
}

/// `s` without leading copies of `c`.
pub fn trim_char_start(s: &[char], c: char) -> (r: Vec<char>)
    ensures
        r@ == trim_char_start_seq(s@, c),
{
    let mut i: usize = 0;
    assert(s@.skip(0) =~= s@);
    while i < s.len() && s[i] == c
        invariant
            i <= s.len(),
            trim_char_start_seq(s@, c) == trim_char_start_seq(s@.skip(i as int), c),
        decreases s.len() - i,
    {
        assert(s@.skip(i as int).drop_first() =~= s@.skip(i + 1));
        i = i + 1;
    }
    proof {
        if i < s.len() {
            assert(s@.skip(i as int)[0] == s@[i as int]);
        }
    }
    let r = slice_range(s, i, s.len());
    assert(r@ =~= s@.skip(i as int));
    r
}

/// `s` without trailing copies of `c`.
pub fn trim_char_end(s: &[char], c: char) -> (r: Vec<char>)
    ensures
        r@ == trim_char_end_seq(s@, c),
{
    let mut j = s.len();
    assert(s@.take(j as int) =~= s@);
    while j > 0 && s[j - 1] == c
        invariant
            j <= s.len(),
            trim_char_end_seq(s@, c) == trim_char_end_seq(s@.take(j as int), c),
        decreases j,
    {
        assert(s@.take(j as int).drop_last() =~= s@.take(j - 1));
        j = j - 1;
    }
    proof {
        if j > 0 {
            assert(s@.take(j as int).last() == s@[j - 1]);
        }
    }
    let r = slice_range(s, 0, j);
    assert(r@ =~= s@.take(j as int));
    r
}

/// `s` without leading or trailing copies of `c`.
pub fn trim_char(s: &[char], c: char) -> (r: Vec<char>)
    ensures
        r@ == trim_char_seq(s@, c),
{
    let t = trim_char_start(s, c);
    trim_char_end(t.as_slice(), c)
}


/// The words `ws` joined with `sep` between neighbours (`[T]::join`).
pub open spec fn join_seqs(ws: Seq<Seq<char>>, sep: Seq<char>) -> Seq<char>
    decreases ws.len(),
{
    if ws.len() == 0 {
        seq![]
    } else if ws.len() == 1 {
        ws[0]
    } else {
        join_seqs(ws.drop_last(), sep) + sep + ws.last()
    }
}

/// The first `n` words of `ws` joined with `sep`.
pub fn join_first(ws: &Vec<Vec<char>>, n: usize, sep: &[char]) -> (r: Vec<char>)
    requires
        n <= ws.len(),
    ensures
        r@ == join_seqs(views(ws@).take(n as int), sep@),
{
    let ghost wv = views(ws@);
    let mut out: Vec<char> = Vec::new();
    let mut i: usize = 0;
    while i < n
        invariant
            i <= n <= ws.len(),
            wv == views(ws@),
            wv.len() == ws@.len(),
            out@ == join_seqs(wv.take(i as int), sep@),
        decreases n - i,
    {
        assert(wv[i as int] == ws@[i as int]@);
        assert(wv.take(i + 1).drop_last() =~= wv.take(i as int));
        if i > 0 {
            push_all(&mut out, sep);
        } else {
            assert(out@ =~= seq![]);
        }
        push_all(&mut out, ws[i].as_slice());
        i = i + 1;
        proof {
            if i == 1 {
                assert(out@ =~= wv.take(1)[0]);
            }
        }
    }
    out
}

/// Lexicographic order on strings by code point, which is the order `String`'s `Ord` gives
/// (UTF-8 byte order and code point order agree).
pub open spec fn seq_lt(a: Seq<char>, b: Seq<char>) -> bool
    decreases a.len(),
{
    if a.len() == 0 {
        b.len() > 0
    } else if b.len() == 0 {
        false
    } else if a[0] != b[0] {
        (a[0] as int) < (b[0] as int)
    } else {
        seq_lt(a.drop_first(), b.drop_first())
    }
}

/// No string precedes itself, and two different strings are ordered one way or the other
/// but not both.
pub proof fn lemma_seq_lt_total(a: Seq<char>, b: Seq<char>)
    ensures
        !seq_lt(a, a),
        a != b ==> (seq_lt(a, b) || seq_lt(b, a)),
        !(seq_lt(a, b) && seq_lt(b, a)),
    decreases a.len(),
{
    if a.len() > 0 {
        lemma_seq_lt_total(a.drop_first(), a.drop_first());
        if b.len() > 0 {
            lemma_seq_lt_total(a.drop_first(), b.drop_first());
            if a != b && a[0] == b[0] {
                assert(a.drop_first() != b.drop_first()) by {
                    if a.drop_first() == b.drop_first() {
                        assert(a =~= seq![a[0]] + a.drop_first());
                        assert(b =~= seq![b[0]] + b.drop_first());
                    }
                }
            }
        }
    } else {
        if b.len() == 0 {
            assert(a =~= b);
        }
    }
}

/// The order is transitive.
pub proof fn lemma_seq_lt_transitive(a: Seq<char>, b: Seq<char>, c: Seq<char>)
    requires
        seq_lt(a, b),
        seq_lt(b, c),
    ensures
        seq_lt(a, c),
    decreases a.len(),
{
    if a.len() > 0 && b.len() > 0 && c.len() > 0 && a[0] == b[0] && b[0] == c[0] {
        lemma_seq_lt_transitive(a.drop_first(), b.drop_first(), c.drop_first());
    }
}

/// Whether `a` comes before `b` in code point order.
pub fn text_lt(a: &[char], b: &[char]) -> (r: bool)
    ensures
        r == seq_lt(a@, b@),
{
    let mut i: usize = 0;
    assert(a@.skip(0) =~= a@ && b@.skip(0) =~= b@);
    while i < a.len() && i < b.len()
        invariant
            i <= a.len(),
            i <= b.len(),
            seq_lt(a@, b@) == seq_lt(a@.skip(i as int), b@.skip(i as int)),
        decreases a.len() - i,
    {
        assert(a@.skip(i as int)[0] == a@[i as int] && b@.skip(i as int)[0] == b@[i as int]);
        if a[i] != b[i] {
            return a[i] < b[i];
        }
        assert(a@.skip(i as int).drop_first() =~= a@.skip(i + 1));
        assert(b@.skip(i as int).drop_first() =~= b@.skip(i + 1));
        i = i + 1;
    }
    a.len() < b.len()
}

/// The decimal representation of a signed integer, with a leading `-` when negative.
pub open spec fn signed_decimal(n: int) -> Seq<char> {
    if n < 0 {
        seq!['-'] + decimal((-n) as nat)
    } else {
        decimal(n as nat)
    }
}

/// The decimal representation of `n` (`i64::to_string`).
pub fn decimal_i64(n: i64) -> (r: Vec<char>)
    ensures
        r@ == signed_decimal(n as int),
{
    if n < 0 {
        let m: u64 = if n == i64::MIN {
            9223372036854775808u64
        } else {
            (-n) as u64
        };
        let d = decimal_u64(m);
        let mut v: Vec<char> = Vec::new();
        v.push('-');
        push_all(&mut v, d.as_slice());
        assert(v@ =~= seq!['-'] + decimal((-n) as nat));
        v
    } else {
        decimal_u64(n as u64)
    }
}

} // verus!
