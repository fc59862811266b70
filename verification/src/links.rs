//! Signed reader links: a token names a book and an expiry, and is signed with HMAC-SHA256
//! so that only the holder of the secret can mint one.
//!
//! A token is `payload.signature`, where the payload is the claims JSON in URL-safe
//! base64 without padding, and the signature is the HMAC of the payload text, encoded the
//! same way.
use vstd::prelude::*;

use vstd::utf8::encode_utf8;
use crate::text::{
    chars_eq, chars_of, push_all, push_str, signed_decimal, slice_range, string_of,
    trim_char_end, trim_char_end_seq,
};

verus! {

broadcast use vstd::string::group_string_axioms;

/// How long a reader link stays valid, in hours.
pub const READER_TOKEN_TTL_HOURS: i64 = 1;

/// The claims a reader token carries: the book and the expiry, in seconds since the Unix
/// epoch.
#[derive(Debug, Clone)]
pub struct ReaderTokenClaims {
    pub book_id: String,
    pub exp: i64,
}

/// Why a reader token was refused.
#[derive(Debug, Clone, Copy, PartialEq, Eq, Structural)]
pub enum ReaderTokenError {
    Expired,
    InvalidFormat,
    InvalidSignature,
    InvalidEncoding,
    InvalidClaims,
}

impl ReaderTokenError {
    /// The message shown for the error.
    pub fn message(&self) -> (r: &'static str)
        ensures
            r@ == match self {
                ReaderTokenError::Expired => "reader token expired"@,
                ReaderTokenError::InvalidFormat => "invalid token format"@,
                ReaderTokenError::InvalidSignature => "invalid token signature"@,
                ReaderTokenError::InvalidEncoding => "invalid token encoding"@,
                ReaderTokenError::InvalidClaims => "invalid token claims"@,
            },
    {
        match self {
            ReaderTokenError::Expired => "reader token expired",
            ReaderTokenError::InvalidFormat => "invalid token format",
            ReaderTokenError::InvalidSignature => "invalid token signature",
            ReaderTokenError::InvalidEncoding => "invalid token encoding",
            ReaderTokenError::InvalidClaims => "invalid token claims",
        }
    }
}

/// The link at which the reader shows a token's book: the frontend base URL without
/// trailing slashes, then `/reader/` and the token.
pub open spec fn reader_url_spec(base: Seq<char>, token: Seq<char>) -> Seq<char> {
    trim_char_end_seq(base, '/') + "/reader/"@ + token
}

/// The link at which the reader shows a token's book.
pub fn reader_url(frontend_base_url: &str, token: &str) -> (r: String)
    ensures
        r@ == reader_url_spec(frontend_base_url@, token@),
{
    let mut v = trim_char_end(chars_of(frontend_base_url).as_slice(), '/');
    push_str(&mut v, "/reader/");
    push_all(&mut v, chars_of(token).as_slice());
    string_of(v.as_slice())
}

/// The HMAC-SHA256 tag of `message` under `key`.
pub uninterp spec fn hmac_sha256_tag(key: Seq<u8>, message: Seq<u8>) -> Seq<u8>;

/// Computes HMAC-SHA256 (`Hmac::<Sha256>::new_from_slice`, `update`, `finalize`). The
/// key may have any length: `new_from_slice` never refuses one for HMAC.
#[verifier::external_body]
pub(crate) fn hmac_sha256(key: &[u8], message: &[u8]) -> (r: Vec<u8>)
    ensures
        r@ == hmac_sha256_tag(key@, message@),
{
    let mut mac = <hmac::Hmac<sha2::Sha256> as hmac::Mac>::new_from_slice(key).expect(
        "HMAC takes a key of any length",
    );
    hmac::Mac::update(&mut mac, message);
    hmac::Mac::finalize(mac).into_bytes().to_vec()
}

/// The URL-safe base64 text of `bytes`, without padding.
pub uninterp spec fn base64_url_text(bytes: Seq<u8>) -> Seq<char>;

/// The bytes URL-safe base64 text without padding decodes to, if it is such text.
pub uninterp spec fn base64_url_bytes(text: Seq<char>) -> Option<Seq<u8>>;

/// A character of the URL-safe base64 alphabet.
pub open spec fn url_safe_char(c: char) -> bool {
    ('A' <= c && c <= 'Z') || ('a' <= c && c <= 'z') || ('0' <= c && c <= '9') || c == '-' || c
        == '_'
}

/// Encodes bytes as URL-safe base64 without padding (`URL_SAFE_NO_PAD.encode`). The text
/// uses only the URL-safe alphabet, and decoding it gives the bytes back.
#[verifier::external_body]
pub(crate) fn base64_url_encode(bytes: &[u8]) -> (r: String)
    ensures
        r@ == base64_url_text(bytes@),
        forall|i: int| 0 <= i < r@.len() ==> url_safe_char(#[trigger] r@[i]),
        base64_url_bytes(r@) == Some(bytes@),
{
    base64::Engine::encode(&base64::engine::general_purpose::URL_SAFE_NO_PAD, bytes)
}

/// Decodes URL-safe base64 without padding (`URL_SAFE_NO_PAD.decode`).
#[verifier::external_body]
pub(crate) fn base64_url_decode(text: &str) -> (r: Option<Vec<u8>>)
    ensures
        match base64_url_bytes(text@) {
            Some(b) => r matches Some(v) && v@ == b,
            None => r is None,
        },
{
    base64::Engine::decode(&base64::engine::general_purpose::URL_SAFE_NO_PAD, text).ok()
}

/// The JSON string literal of `s`, quoted and escaped.
pub uninterp spec fn json_string_text(s: Seq<char>) -> Seq<char>;

/// The JSON string literal of `s` (`serde_json::to_string` of a `str`, which cannot fail).
#[verifier::external_body]
pub(crate) fn json_string(s: &str) -> (r: String)
    ensures
        r@ == json_string_text(s@),
{
    serde_json::to_string(s).expect("a string always serializes")
}

/// The JSON text of reader claims, fields in declaration order, as `serde_json` writes
/// them.
pub open spec fn claims_json(book_id: Seq<char>, exp: int) -> Seq<char> {
    "{\"book_id\":"@ + json_string_text(book_id) + ",\"exp\":"@ + signed_decimal(exp) + "}"@
}

/// The signature of a token payload under `secret`.
pub open spec fn token_signature(secret: Seq<char>, payload: Seq<char>) -> Seq<char> {
    base64_url_text(hmac_sha256_tag(encode_utf8(secret), encode_utf8(payload)))
}

/// The token for a book and an expiry under `secret`.
pub open spec fn token_spec(secret: Seq<char>, book_id: Seq<char>, exp: int) -> Seq<char> {
    let payload = base64_url_text(encode_utf8(claims_json(book_id, exp)));
    payload + seq!['.'] + token_signature(secret, payload)
}

/// Signs a token payload.
pub fn sign(secret: &str, payload: &str) -> (r: String)
    ensures
        r@ == token_signature(secret@, payload@),
{
    let tag = hmac_sha256(secret.as_bytes(), payload.as_bytes());
    base64_url_encode(tag.as_slice())
}

/// The first position of `c` in `s`.
pub open spec fn first_index_of(s: Seq<char>, c: char) -> Option<int> {
    if exists|i: int| 0 <= i < s.len() && s[i] == c {
        Some(choose|i: int| 0 <= i < s.len() && s[i] == c && forall|k: int| 0 <= k < i ==> s[k] != c)
    } else {
        None
    }
}

pub proof fn lemma_first_index_of(s: Seq<char>, c: char, i: int)
    requires
        0 <= i < s.len(),
        s[i] == c,
        forall|k: int| 0 <= k < i ==> s[k] != c,
    ensures
        first_index_of(s, c) == Some(i),
{
    let j = choose|j: int| 0 <= j < s.len() && s[j] == c && forall|k: int| 0 <= k < j ==> s[k] != c;
    assert(0 <= j < s.len() && s[j] == c && forall|k: int| 0 <= k < j ==> s[k] != c);
    if j < i {
        assert(s[j] != c);
    } else if j > i {
        assert(s[i] != c);
    }
}

/// What opening a token under `secret` gives: the claims bytes, when the token has a
/// `.`, the part after the first `.` is the payload's signature, and the payload decodes.
pub open spec fn open_token_spec(secret: Seq<char>, token: Seq<char>) -> Result<
    Seq<u8>,
    ReaderTokenError,
> {
    match first_index_of(token, '.') {
        None => Err(ReaderTokenError::InvalidFormat),
        Some(i) => {
            let payload = token.take(i);
            let signature = token.skip(i + 1);
            if token_signature(secret, payload) != signature {
                Err(ReaderTokenError::InvalidSignature)
            } else {
                match base64_url_bytes(payload) {
                    None => Err(ReaderTokenError::InvalidEncoding),
                    Some(b) => Ok(b),
                }
            }
        },
    }
}

/// A token for `book_id` that expires `ttl_hours` after `issued_at` (seconds since the
/// Unix epoch). The expiry must stay within the dates the time library represents, and
/// the span within its durations, as they do for any real clock and lifetime.
///
/// Opening the token with the same secret gives back exactly the claims it was made
/// from.
pub fn issue_token_at(secret: &str, book_id: &str, ttl_hours: i64, issued_at: i64) -> (r: String)
    requires
        -9_223_372_036_854_775 <= ttl_hours * 3600 <= 9_223_372_036_854_775,
        -8_334_601_315_200 <= issued_at + ttl_hours * 3600 <= 8_210_266_876_799,
    ensures
        r@ == token_spec(secret@, book_id@, issued_at + ttl_hours * 3600),
        open_token_spec(secret@, r@) == Ok::<Seq<u8>, ReaderTokenError>(
            encode_utf8(claims_json(book_id@, issued_at + ttl_hours * 3600)),
        ),
{
    let exp: i64 = issued_at + ttl_hours * 3600;
    let mut json = chars_of("{\"book_id\":");
    push_all(&mut json, chars_of(json_string(book_id).as_str()).as_slice());
    push_str(&mut json, ",\"exp\":");
    push_all(&mut json, crate::text::decimal_i64(exp).as_slice());
    push_str(&mut json, "}");
    let claims = string_of(json.as_slice());
    let payload = base64_url_encode(claims.as_str().as_bytes());
    let signature = sign(secret, payload.as_str());
    let mut token = chars_of(payload.as_str());
    token.push('.');
    push_all(&mut token, chars_of(signature.as_str()).as_slice());
    let ghost p = payload@;
    let ghost t = token@;
    assert(t =~= p + seq!['.'] + signature@);
    proof {
        assert forall|k: int| 0 <= k < p.len() implies t[k] != '.' by {
            assert(t[k] == p[k]);
            assert(url_safe_char(p[k]));
        }
        assert(t[p.len() as int] == '.');
        lemma_first_index_of(t, '.', p.len() as int);
        assert(t.take(p.len() as int) =~= p);
        assert(t.skip(p.len() as int + 1) =~= signature@);
    }
    string_of(token.as_slice())
}

fn find_char(s: &[char], c: char) -> (r: Option<usize>)
    ensures
        match r {
            Some(i) => first_index_of(s@, c) == Some(i as int) && i < s@.len(),
            None => first_index_of(s@, c) is None,
        },
{
    let mut i: usize = 0;
    while i < s.len()
        invariant
            i <= s@.len(),
            forall|k: int| 0 <= k < i ==> s@[k] != c,
        decreases s.len() - i,
    {
        if s[i] == c {
            proof {
                lemma_first_index_of(s@, c, i as int);
            }
            return Some(i);
        }
        i = i + 1;
    }
    None
}

/// Opens a token: checks its format and signature under `secret` and decodes its
/// payload into the claims JSON bytes, which the caller parses.
pub fn open_token(secret: &str, token: &str) -> (r: Result<Vec<u8>, ReaderTokenError>)
    ensures
        match open_token_spec(secret@, token@) {
            Ok(b) => r matches Ok(v) && v@ == b,
            Err(e) => r == Err::<Vec<u8>, ReaderTokenError>(e),
        },
{
    let t = chars_of(token);
    let dot = match find_char(t.as_slice(), '.') {
        Some(i) => i,
        None => {
            return Err(ReaderTokenError::InvalidFormat);
        },
    };
    let payload = string_of(slice_range(t.as_slice(), 0, dot).as_slice());
    let signature = slice_range(t.as_slice(), dot + 1, t.len());
    assert(payload@ =~= token@.take(dot as int));
    assert(signature@ =~= token@.skip(dot + 1));
    let expected = sign(secret, payload.as_str());
    if !chars_eq(chars_of(expected.as_str()).as_slice(), signature.as_slice()) {
        return Err(ReaderTokenError::InvalidSignature);
    }
    match base64_url_decode(payload.as_str()) {
        Some(b) => Ok(b),
        None => Err(ReaderTokenError::InvalidEncoding),
    }
}

/// Accepts decoded claims unless they expired before `now` (seconds since the Unix
/// epoch).
pub fn check_token_expiry(claims: ReaderTokenClaims, now: i64) -> (r: Result<
    ReaderTokenClaims,
    ReaderTokenError,
>)
    ensures
        claims.exp < now ==> r == Err::<ReaderTokenClaims, ReaderTokenError>(
            ReaderTokenError::Expired,
        ),
        claims.exp >= now ==> r == Ok::<ReaderTokenClaims, ReaderTokenError>(claims),
{
    if claims.exp < now {
        Err(ReaderTokenError::Expired)
    } else {
        Ok(claims)
    }
}

} // verus!
