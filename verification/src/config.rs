//! Service configuration: the environment it runs in, the defaults of each, and how
//! configured paths are resolved against the working directory.
use vstd::prelude::*;

use crate::paths::{
    components, component_views, is_absolute, is_plain_name, join, join_path, lemma_join_plain,
    path_components, Component, PathComponent,
};
use crate::text::{
    all_ascii, ascii_lower_seq, chars_eq, chars_of, split_whitespace, string_of, to_lowercase, trim, trim_seq,
    unicode_lowercase, views, words,
};

verus! {

broadcast use vstd::string::group_string_axioms;

/// The environment the service runs in.
#[derive(Debug, Clone, Copy, PartialEq, Eq, Structural)]
pub enum AppEnvironment {
    Development,
    Test,
    Production,
}

/// The settings an environment starts from.
#[derive(Debug, Clone, Copy)]
pub struct EnvironmentDefaults {
    pub host: &'static str,
    pub port: u16,
    pub data_dir: &'static str,
    pub books_root: &'static str,
    pub frontend_dist_dir: &'static str,
}

/// The environment a name (already lower-cased) stands for; anything unknown is
/// development.
pub open spec fn environment_for(name: Seq<char>) -> AppEnvironment {
    if name == "test"@ {
        AppEnvironment::Test
    } else if name == "production"@ {
        AppEnvironment::Production
    } else {
        AppEnvironment::Development
    }
}

impl AppEnvironment {
    /// The environment `APP_ENV` names, compared lower-cased (by the ASCII rules on ASCII
    /// text).
    pub fn from_name(value: &str) -> (r: AppEnvironment)
        ensures
            r == environment_for(unicode_lowercase(value@)),
            all_ascii(value@) ==> r == environment_for(ascii_lower_seq(value@)),
    {
        let lower = to_lowercase(value);
        let l = chars_of(lower.as_str());
        if chars_eq(l.as_slice(), chars_of("test").as_slice()) {
            AppEnvironment::Test
        } else if chars_eq(l.as_slice(), chars_of("production").as_slice()) {
            AppEnvironment::Production
        } else {
            AppEnvironment::Development
        }
    }

    /// The settings the environment starts from.
    pub fn defaults(&self) -> (r: EnvironmentDefaults)
        ensures
            r.host@ == "127.0.0.1"@,
            match self {
                AppEnvironment::Development => r.port == 3000 && r.data_dir@ == "data"@
                    && r.books_root@ == "books-data"@ && r.frontend_dist_dir@ == "frontend/build"@,
                AppEnvironment::Test => r.port == 3100 && r.data_dir@ == "target/test/data"@
                    && r.books_root@ == "target/test/books-data"@ && r.frontend_dist_dir@
                    == "frontend/build"@,
                AppEnvironment::Production => r.port == 3000 && r.data_dir@
                    == "/var/lib/book-writer-chat/state"@ && r.books_root@
                    == "/var/lib/book-writer-chat/books-data"@ && r.frontend_dist_dir@
                    == "/app/frontend/build"@,
            },
    {
        match self {
            AppEnvironment::Development => EnvironmentDefaults {
                host: "127.0.0.1",
                port: 3000,
                data_dir: "data",
                books_root: "books-data",
                frontend_dist_dir: "frontend/build",
            },
            AppEnvironment::Test => EnvironmentDefaults {
                host: "127.0.0.1",
                port: 3100,
                data_dir: "target/test/data",
                books_root: "target/test/books-data",
                frontend_dist_dir: "frontend/build",
            },
            AppEnvironment::Production => EnvironmentDefaults {
                host: "127.0.0.1",
                port: 3000,
                data_dir: "/var/lib/book-writer-chat/state",
                books_root: "/var/lib/book-writer-chat/books-data",
                frontend_dist_dir: "/app/frontend/build",
            },
        }
    }
}

/// The names a relative path adds to its base: each plain name is added, each `..`
/// takes back the last name added (never going above the base), and `.` and root
/// components are skipped.
pub open spec fn relative_names(cs: Seq<PathComponent>) -> Seq<Seq<char>>
    decreases cs.len(),
{
    if cs.len() == 0 {
        seq![]
    } else {
        let prev = relative_names(cs.drop_last());
        match cs.last() {
            PathComponent::Normal(n) => prev.push(n),
            PathComponent::ParentDir => if prev.len() > 0 {
                prev.drop_last()
            } else {
                prev
            },
            _ => prev,
        }
    }
}

/// The components of the names, each a plain name.
pub open spec fn name_components(names: Seq<Seq<char>>) -> Seq<PathComponent> {
    names.map_values(|n: Seq<char>| PathComponent::Normal(n))
}

/// `base` with each of `names` pushed onto it in turn (`PathBuf::push`).
pub open spec fn push_names(base: Seq<char>, names: Seq<Seq<char>>) -> Seq<char>
    decreases names.len(),
{
    if names.len() == 0 {
        base
    } else {
        join_path(push_names(base, names.drop_last()), names.last())
    }
}

/// `relative` resolved against `base`: the names `relative` adds pushed onto `base`, so
/// that as a path it is the base's components followed by those names.
pub fn normalize_relative_path(base: &str, relative: &str) -> (r: String)
    ensures
        r@ == push_names(base@, relative_names(path_components(relative@))),
        path_components(r@) == path_components(base@) + name_components(
            relative_names(path_components(relative@)),
        ),
{
    let cs = components(chars_of(relative).as_slice());
    let ghost cv = component_views(cs@);
    assert(cv.len() == cs@.len());
    let mut names: Vec<Vec<char>> = Vec::new();
    let mut i: usize = 0;
    while i < cs.len()
        invariant
            i <= cs@.len(),
            cv == component_views(cs@),
            cv.len() == cs@.len(),
            cv == path_components(relative@),
            views(names@) == relative_names(cv.take(i as int)),
            forall|k: int| 0 <= k < names@.len() ==> is_plain_name(#[trigger] views(names@)[k]),
        decreases cs.len() - i,
    {
        assert(cv.take(i + 1).drop_last() =~= cv.take(i as int));
        assert(cv.take(i + 1).last() == cs@[i as int]@);
        let ghost before = views(names@);
        match &cs[i] {
            Component::Normal(n) => {
                let copy = crate::text::slice_range(n.as_slice(), 0, n.len());
                assert(copy@ =~= n@);
                proof {
                    crate::paths::lemma_components_plain(relative@);
                    assert(cv[i as int] == PathComponent::Normal(n@));
                }
                names.push(copy);
                assert(views(names@) =~= before.push(n@));
            },
            Component::ParentDir => {
                if names.len() > 0 {
                    names.pop();
                    assert(views(names@) =~= before.drop_last());
                }
            },
            _ => {},
        }
        i = i + 1;
    }
    assert(cv.take(cs@.len() as int) =~= cv);
    let mut out = chars_of(base);
    let ghost rn = views(names@);
    let mut j: usize = 0;
    while j < names.len()
        invariant
            j <= names@.len(),
            rn == views(names@),
            rn.len() == names@.len(),
            forall|k: int| 0 <= k < rn.len() ==> is_plain_name(#[trigger] rn[k]),
            path_components(out@) == path_components(base@) + name_components(rn.take(j as int)),
            out@ == push_names(base@, rn.take(j as int)),
        decreases names.len() - j,
    {
        let ghost prev = out@;
        assert(rn[j as int] == names@[j as int]@);
        out = join(out.as_slice(), names[j].as_slice());
        proof {
            lemma_join_plain(prev, rn[j as int]);
            assert(name_components(rn.take(j + 1)) =~= name_components(rn.take(j as int)).push(
                PathComponent::Normal(rn[j as int]),
            ));
            assert(rn.take(j + 1).drop_last() =~= rn.take(j as int));
        }
        j = j + 1;
    }
    assert(rn.take(names@.len() as int) =~= rn);
    string_of(out.as_slice())
}

/// A configured path: kept when absolute, otherwise resolved against the working
/// directory `cwd`.
pub fn resolve_path(cwd: &str, value: &str) -> (r: String)
    ensures
        is_absolute(value@) ==> r@ == value@,
        !is_absolute(value@) ==> r@ == push_names(cwd@, relative_names(path_components(value@))),
        !is_absolute(value@) ==> path_components(r@) == path_components(cwd@) + name_components(
            relative_names(path_components(value@)),
        ),
{
    let v = chars_of(value);
    if v.len() > 0 && v[0] == '/' {
        value.to_string()
    } else {
        normalize_relative_path(cwd, value)
    }
}

/// The agent arguments a configuration value lists, separated by whitespace.
pub fn cli_args_from(value: &str) -> (r: Vec<String>)
    ensures
        r@.map_values(|s: String| s@) == words(value@),
{
    let ws = split_whitespace(chars_of(value).as_slice());
    let mut out: Vec<String> = Vec::new();
    let mut i: usize = 0;
    while i < ws.len()
        invariant
            i <= ws@.len(),
            out@.map_values(|s: String| s@) == views(ws@).take(i as int),
        decreases ws.len() - i,
    {
        let s = string_of(ws[i].as_slice());
        let ghost before = out@.map_values(|s: String| s@);
        out.push(s);
        assert(out@.map_values(|s: String| s@) =~= before.push(ws@[i as int]@));
        assert(views(ws@).take(i + 1) =~= views(ws@).take(i as int).push(ws@[i as int]@));
        i = i + 1;
    }
    assert(views(ws@).take(ws@.len() as int) =~= views(ws@));
    out
}

/// Whether `c` is a decimal digit.
pub open spec fn is_digit(c: char) -> bool {
    '0' <= c <= '9'
}

/// The value of a run of decimal digits.
pub open spec fn digits_value(s: Seq<char>) -> nat
    decreases s.len(),
{
    if s.len() == 0 {
        0
    } else {
        digits_value(s.drop_last()) * 10 + ((s.last() as u32) - 48) as nat
    }
}

/// The digits of an unsigned number's text: the text without a leading `+`.
pub open spec fn unsigned_digits(s: Seq<char>) -> Seq<char> {
    if s.len() > 0 && s[0] == '+' {
        s.drop_first()
    } else {
        s
    }
}

/// The number a text names as `str::parse` reads an unsigned integer: an optional `+`, then
/// one or more decimal digits, whose value must not exceed `max`.
pub open spec fn unsigned_text_value(s: Seq<char>, max: nat) -> Option<nat> {
    let d = unsigned_digits(s);
    if d.len() > 0 && (forall|i: int| 0 <= i < d.len() ==> is_digit(#[trigger] d[i]))
        && digits_value(d) <= max {
        Some(digits_value(d))
    } else {
        None
    }
}

proof fn lemma_digits_value_grows(d: Seq<char>, i: int)
    requires
        0 <= i <= d.len(),
        forall|k: int| 0 <= k < d.len() ==> is_digit(#[trigger] d[k]),
    ensures
        digits_value(d.take(i)) <= digits_value(d),
    decreases d.len(),
{
    if i < d.len() {
        let t = d.drop_last();
        assert forall|k: int| 0 <= k < t.len() implies is_digit(#[trigger] t[k]) by {
            assert(t[k] == d[k]);
        }
        lemma_digits_value_grows(t, i);
        assert(t.take(i) =~= d.take(i));
    } else {
        assert(d.take(i) =~= d);
    }
}

/// Reads an unsigned number no greater than `max` from text (see `unsigned_text_value`).
pub fn parse_unsigned(text: &str, max: u64) -> (r: Option<u64>)
    ensures
        match unsigned_text_value(text@, max as nat) {
            Some(n) => r == Some(n as u64),
            None => r is None,
        },
{
    let s = chars_of(text);
    let start: usize = if s.len() > 0 && s[0] == '+' { 1 } else { 0 };
    let ghost d = unsigned_digits(text@);
    assert(d =~= s@.skip(start as int));
    if start >= s.len() {
        return None;
    }
    let mut value: u64 = 0;
    let mut i: usize = start;
    assert(d.take(0) =~= Seq::<char>::empty());
    while i < s.len()
        invariant
            start <= i <= s.len(),
            s@ == text@,
            d == s@.skip(start as int),
            d == unsigned_digits(text@),
            forall|k: int| 0 <= k < i - start ==> is_digit(#[trigger] d[k]),
            value == digits_value(d.take(i - start)),
            value <= max,
        decreases s.len() - i,
    {
        let c = s[i];
        assert(d[i - start] == c);
        if !('0' <= c && c <= '9') {
            assert(!is_digit(d[i - start]));
            return None;
        }
        let digit: u64 = ((c as u32) - 48) as u64;
        assert(d.take(i - start + 1).drop_last() =~= d.take(i - start));
        let next = match value.checked_mul(10) {
            Some(v) => v.checked_add(digit),
            None => None,
        };
        match next {
            Some(v) if v <= max => {
                value = v;
            },
            _ => {
                proof {
                    let p = d.take(i - start + 1);
                    assert(p.last() == c);
                    assert(digits_value(p) == value * 10 + digit);
                    assert(digits_value(p) > max);
                    if forall|k: int| 0 <= k < d.len() ==> is_digit(#[trigger] d[k]) {
                        lemma_digits_value_grows(d, i - start + 1);
                    }
                }
                return None;
            },
        }
        i = i + 1;
    }
    assert(d.take(i - start) =~= d);
    Some(value)
}

/// The agent's time limit in seconds: `AGENT_TIMEOUT_SECS` when it is set and reads as a
/// 64-bit unsigned number, else 60.
pub fn agent_timeout_from(value: Option<&str>) -> (r: u64)
    ensures
        r == match value {
            Some(v) => match unsigned_text_value(v@, u64::MAX as nat) {
                Some(n) => n as u64,
                None => 60,
            },
            None => 60,
        },
{
    match value {
        Some(v) => match parse_unsigned(v, u64::MAX) {
            Some(n) => n,
            None => 60,
        },
        None => 60,
    }
}

/// The port the server binds: `APP_PORT` when it is set, which must then read as a TCP
/// port (`None` refuses it), else the environment's default.
pub fn bind_port_from(value: Option<&str>, default: u16) -> (r: Option<u16>)
    ensures
        r == match value {
            Some(v) => match unsigned_text_value(v@, 65535) {
                Some(n) => Some(n as u16),
                None => None,
            },
            None => Some(default),
        },
{
    match value {
        Some(v) => match parse_unsigned(v, 65535) {
            Some(n) => Some(n as u16),
            None => None,
        },
        None => Some(default),
    }
}

/// The base URL of reader links: `FRONTEND_BASE_URL` when it is set, else the server's own
/// address (`bind_addr`, as the socket address prints) over HTTP.
pub fn frontend_base_url_from(value: Option<String>, bind_addr: &str) -> (r: String)
    ensures
        r@ == match value {
            Some(v) => v@,
            None => "http://"@ + bind_addr@,
        },
{
    match value {
        Some(v) => v,
        None => {
            let mut out = chars_of("http://");
            crate::text::push_all(&mut out, chars_of(bind_addr).as_slice());
            string_of(out.as_slice())
        },
    }
}

/// Why a production configuration was refused.
#[derive(Debug, Clone, Copy, PartialEq, Eq, Structural)]
pub enum ConfigError {
    MissingFrontendBaseUrl,
    DefaultReaderSecret,
}

impl ConfigError {
    /// The message shown for the error.
    pub fn message(&self) -> (r: &'static str)
        ensures
            r@ == match self {
                ConfigError::MissingFrontendBaseUrl =>
                    "FRONTEND_BASE_URL is required in production so generated reader links use the public site URL"@,
                ConfigError::DefaultReaderSecret =>
                    "READER_TOKEN_SECRET must be set explicitly in production"@,
            },
    {
        match self {
            ConfigError::MissingFrontendBaseUrl => "FRONTEND_BASE_URL is required in production so generated reader links use the public site URL",
            ConfigError::DefaultReaderSecret => "READER_TOKEN_SECRET must be set explicitly in production",
        }
    }
}

/// The reader secret used when none is configured.
pub const DEV_READER_SECRET: &'static str = "dev-reader-secret";

/// Checks what production requires: a public frontend URL and a reader secret of its own.
/// Other environments accept anything.
pub fn validate_environment(
    environment: AppEnvironment,
    frontend_base_url: &str,
    reader_token_secret: &str,
) -> (r: Result<(), ConfigError>)
    ensures
        environment != AppEnvironment::Production ==> r is Ok,
        environment == AppEnvironment::Production ==> r == if trim_seq(frontend_base_url@).len()
            == 0 {
            Err::<(), ConfigError>(ConfigError::MissingFrontendBaseUrl)
        } else if reader_token_secret@ == DEV_READER_SECRET@ {
            Err::<(), ConfigError>(ConfigError::DefaultReaderSecret)
        } else {
            Ok::<(), ConfigError>(())
        },
{
    if environment != AppEnvironment::Production {
        return Ok(());
    }
    if trim(chars_of(frontend_base_url).as_slice()).len() == 0 {
        return Err(ConfigError::MissingFrontendBaseUrl);
    }
    if chars_eq(chars_of(reader_token_secret).as_slice(), chars_of(DEV_READER_SECRET).as_slice()) {
        return Err(ConfigError::DefaultReaderSecret);
    }
    Ok(())
}

} // verus!
