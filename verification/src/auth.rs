//! Operator authentication for the web app: signed JSON Web Tokens (HS256), an access
//! token and a refresh token per login.
use vstd::prelude::*;

use vstd::utf8::encode_utf8;
use crate::links::{
    base64_url_bytes, base64_url_decode, base64_url_encode, base64_url_text, hmac_sha256,
    hmac_sha256_tag, json_string, json_string_text, url_safe_char,
};
use crate::paths::{piece_views, split_char, split_on};
use crate::text::{
    chars_eq, chars_of, decimal, decimal_u64, push_all, push_str, signed_decimal, string_of,
    strip_prefix, strip_prefix_seq,
};

verus! {

broadcast use vstd::string::group_string_axioms;

/// How long an access token is valid, in hours.
pub const ACCESS_TOKEN_LIFETIME_HOURS: i64 = 8;

/// How long a refresh token is valid, in days.
pub const REFRESH_TOKEN_LIFETIME_DAYS: i64 = 30;

/// A login request.
#[derive(Debug, Clone)]
pub struct LoginRequest {
    pub username: String,
    pub password: String,
}

/// The tokens a login or refresh hands out, with their expiry instants (RFC 3339).
#[derive(Debug, Clone)]
pub struct LoginResponse {
    pub access_token: String,
    pub access_token_expires_at: String,
    pub refresh_token: String,
    pub refresh_token_expires_at: String,
}

/// A request for a new token pair.
#[derive(Debug, Clone)]
pub struct RefreshRequest {
    pub refresh_token: String,
}

/// The operator a session belongs to.
#[derive(Debug, Clone)]
pub struct WebSessionResponse {
    pub username: String,
}

/// An operator whose access token was accepted.
#[derive(Debug, Clone)]
pub struct AuthenticatedOperator {
    pub username: String,
}

/// The claims of a token: the operator, issue and expiry instants (seconds since the Unix
/// epoch), the kind of token and a unique id.
#[derive(Debug, Clone)]
pub struct JwtClaims {
    pub sub: String,
    pub iat: i64,
    pub exp: i64,
    pub token_type: String,
    pub jti: String,
}

/// The two kinds of token.
#[derive(Debug, Clone, Copy, PartialEq, Eq, Structural)]
pub enum TokenType {
    Access,
    Refresh,
}

/// The name of a kind of token.
pub open spec fn token_type_name(t: TokenType) -> Seq<char> {
    match t {
        TokenType::Access => "access"@,
        TokenType::Refresh => "refresh"@,
    }
}

impl TokenType {
    /// The name of the kind of token.
    pub fn as_str(self) -> (r: &'static str)
        ensures
            r@ == token_type_name(self),
    {
        match self {
            TokenType::Access => "access",
            TokenType::Refresh => "refresh",
        }
    }

    /// The kind of token a name stands for.
    pub fn from_str(value: &str) -> (r: Option<TokenType>)
        ensures
            r == if value@ == "access"@ {
                Some(TokenType::Access)
            } else if value@ == "refresh"@ {
                Some(TokenType::Refresh)
            } else {
                None
            },
    {
        let v = chars_of(value);
        if chars_eq(v.as_slice(), chars_of("access").as_slice()) {
            Some(TokenType::Access)
        } else if chars_eq(v.as_slice(), chars_of("refresh").as_slice()) {
            Some(TokenType::Refresh)
        } else {
            None
        }
    }
}

/// Why a token was refused.
#[derive(Debug, Clone, PartialEq, Eq)]
pub enum AuthError {
    InvalidToken,
    ExpiredToken,
    InvalidSecret,
    Json { message: String },
}

impl AuthError {
    /// The error code the API answers with.
    pub fn code(&self) -> (r: &'static str)
        ensures
            r@ == match self {
                AuthError::InvalidToken => "invalid_token"@,
                AuthError::Json { .. } => "invalid_token"@,
                AuthError::ExpiredToken => "expired_token"@,
                AuthError::InvalidSecret => "invalid_secret"@,
            },
    {
        match self {
            AuthError::InvalidToken | AuthError::Json { .. } => "invalid_token",
            AuthError::ExpiredToken => "expired_token",
            AuthError::InvalidSecret => "invalid_secret",
        }
    }

    /// The message the API answers with.
    pub fn message(&self) -> (r: &'static str)
        ensures
            r@ == match self {
                AuthError::InvalidToken => "Authentication token is invalid."@,
                AuthError::Json { .. } => "Authentication token is invalid."@,
                AuthError::ExpiredToken => "Authentication token has expired."@,
                AuthError::InvalidSecret => "Authentication is unavailable."@,
            },
    {
        match self {
            AuthError::InvalidToken | AuthError::Json { .. } => "Authentication token is invalid.",
            AuthError::ExpiredToken => "Authentication token has expired.",
            AuthError::InvalidSecret => "Authentication is unavailable.",
        }
    }

    /// The error as text for logs.
    pub fn describe(&self) -> (r: String)
        ensures
            r@ == match self {
                AuthError::InvalidToken => "invalid token"@,
                AuthError::ExpiredToken => "expired token"@,
                AuthError::InvalidSecret => "invalid signing secret"@,
                AuthError::Json { message } => "jwt json error: "@ + message@,
            },
    {
        match self {
            AuthError::InvalidToken => "invalid token".to_string(),
            AuthError::ExpiredToken => "expired token".to_string(),
            AuthError::InvalidSecret => "invalid signing secret".to_string(),
            AuthError::Json { message } => {
                let mut v = chars_of("jwt json error: ");
                push_all(&mut v, chars_of(message.as_str()).as_slice());
                string_of(v.as_slice())
            },
        }
    }
}

/// Whether a login names the configured operator with the configured password.
pub fn credentials_valid(request: &LoginRequest, username: &str, password: &str) -> (r: bool)
    ensures
        r == (request.username@ == username@ && request.password@ == password@),
{
    chars_eq(chars_of(request.username.as_str()).as_slice(), chars_of(username).as_slice())
        && chars_eq(chars_of(request.password.as_str()).as_slice(), chars_of(password).as_slice())
}

/// The token of an `Authorization` header: what follows `Bearer `.
pub fn bearer_token(header_value: Option<&str>) -> (r: Option<String>)
    ensures
        match header_value {
            Some(h) => match strip_prefix_seq(h@, "Bearer "@) {
                Some(t) => r matches Some(s) && s@ == t,
                None => r is None,
            },
            None => r is None,
        },
{
    match header_value {
        None => None,
        Some(h) => match strip_prefix(chars_of(h).as_slice(), chars_of("Bearer ").as_slice()) {
            Some(t) => Some(string_of(t.as_slice())),
            None => None,
        },
    }
}

/// The unique id of a token issued at `nanos` nanoseconds since the Unix epoch.
pub fn next_token_id(token_type: TokenType, nanos: u64) -> (r: String)
    ensures
        r@ == token_type_name(token_type) + "-"@ + decimal(nanos as nat),
{
    let mut v = chars_of(token_type.as_str());
    push_str(&mut v, "-");
    push_all(&mut v, decimal_u64(nanos).as_slice());
    string_of(v.as_slice())
}

/// The JSON header of every token.
pub open spec fn jwt_header_json() -> Seq<char> {
    "{\"alg\":\"HS256\",\"typ\":\"JWT\"}"@
}

/// The JSON of a token's claims, fields in declaration order, as `serde_json` writes them.
pub open spec fn claims_json_text(c: JwtClaims) -> Seq<char> {
    "{\"sub\":"@ + json_string_text(c.sub@) + ",\"iat\":"@ + signed_decimal(c.iat as int)
        + ",\"exp\":"@ + signed_decimal(c.exp as int) + ",\"token_type\":"@ + json_string_text(
        c.token_type@,
    ) + ",\"jti\":"@ + json_string_text(c.jti@) + "}"@
}

/// The signature segment of a token whose first two segments are `signing_input`.
pub open spec fn jwt_signature(secret: Seq<char>, signing_input: Seq<char>) -> Seq<char> {
    base64_url_text(hmac_sha256_tag(encode_utf8(secret), encode_utf8(signing_input)))
}

/// The token of `claims` signed with `secret`.
pub open spec fn jwt_spec(secret: Seq<char>, claims: JwtClaims) -> Seq<char> {
    let input = base64_url_text(encode_utf8(jwt_header_json())) + "."@ + base64_url_text(
        encode_utf8(claims_json_text(claims)),
    );
    input + "."@ + jwt_signature(secret, input)
}

/// What opening a token gives: its header's JSON bytes and its claims segment, when it
/// has exactly three segments, its signature decodes and matches, and its header decodes.
pub open spec fn open_jwt_spec(secret: Seq<char>, token: Seq<char>) -> Result<
    (Seq<u8>, Seq<char>),
    AuthError,
> {
    let parts = split_on(token, '.');
    if parts.len() != 3 {
        Err(AuthError::InvalidToken)
    } else {
        let input = parts[0] + "."@ + parts[1];
        match base64_url_bytes(parts[2]) {
            None => Err(AuthError::InvalidToken),
            Some(sig) => if hmac_sha256_tag(encode_utf8(secret), encode_utf8(input)) != sig {
                Err(AuthError::InvalidToken)
            } else {
                match base64_url_bytes(parts[0]) {
                    None => Err(AuthError::InvalidToken),
                    Some(h) => Ok((h, parts[1])),
                }
            },
        }
    }
}

proof fn lemma_split_single(p: Seq<char>, sep: char)
    requires
        forall|i: int| 0 <= i < p.len() ==> p[i] != sep,
    ensures
        split_on(p, sep) == seq![p],
    decreases p.len(),
{
    if p.len() > 0 {
        let q = p.drop_last();
        assert forall|i: int| 0 <= i < q.len() implies q[i] != sep by {
            assert(q[i] == p[i]);
        }
        lemma_split_single(q, sep);
        assert(q.push(p.last()) =~= p);
        assert(p.last() == p[p.len() - 1]);
        assert(p.last() != sep);
        assert(seq![q].update(0, q.push(p.last())) =~= seq![p]);
    } else {
        assert(p =~= Seq::<char>::empty());
    }
}

fn bytes_equal(a: &[u8], b: &[u8]) -> (r: bool)
    ensures
        r == (a@ == b@),
{
    if a.len() != b.len() {
        return false;
    }
    let mut i: usize = 0;
    while i < a.len()
        invariant
            i <= a.len() == b.len(),
            forall|k: int| 0 <= k < i ==> a@[k] == b@[k],
        decreases a.len() - i,
    {
        if a[i] != b[i] {
            return false;
        }
        i = i + 1;
    }
    assert(a@ =~= b@);
    true
}

/// Signs `claims` with `secret` into a token. Opening the token with the same secret gives
/// back the header and the claims segment it was made from.
pub fn encode_jwt(secret: &str, claims: &JwtClaims) -> (r: String)
    ensures
        r@ == jwt_spec(secret@, *claims),
        open_jwt_spec(secret@, r@) == Ok::<(Seq<u8>, Seq<char>), AuthError>(
            (
                encode_utf8(jwt_header_json()),
                base64_url_text(encode_utf8(claims_json_text(*claims))),
            ),
        ),
{
    let header = string_of(chars_of("{\"alg\":\"HS256\",\"typ\":\"JWT\"}").as_slice());
    let mut body = chars_of("{\"sub\":");
    push_all(&mut body, chars_of(json_string(claims.sub.as_str()).as_str()).as_slice());
    push_str(&mut body, ",\"iat\":");
    push_all(&mut body, crate::text::decimal_i64(claims.iat).as_slice());
    push_str(&mut body, ",\"exp\":");
    push_all(&mut body, crate::text::decimal_i64(claims.exp).as_slice());
    push_str(&mut body, ",\"token_type\":");
    push_all(&mut body, chars_of(json_string(claims.token_type.as_str()).as_str()).as_slice());
    push_str(&mut body, ",\"jti\":");
    push_all(&mut body, chars_of(json_string(claims.jti.as_str()).as_str()).as_slice());
    push_str(&mut body, "}");
    let body_text = string_of(body.as_slice());
    let encoded_header = base64_url_encode(header.as_str().as_bytes());
    let encoded_claims = base64_url_encode(body_text.as_str().as_bytes());
    let mut input = chars_of(encoded_header.as_str());
    push_str(&mut input, ".");
    push_all(&mut input, chars_of(encoded_claims.as_str()).as_slice());
    let input_text = string_of(input.as_slice());
    let tag = hmac_sha256(secret.as_bytes(), input_text.as_str().as_bytes());
    let encoded_signature = base64_url_encode(tag.as_slice());
    let mut token = input;
    push_str(&mut token, ".");
    push_all(&mut token, chars_of(encoded_signature.as_str()).as_slice());
    proof {
        reveal_strlit(".");
        let h = encoded_header@;
        let c = encoded_claims@;
        let s = encoded_signature@;
        assert(forall|i: int| 0 <= i < h.len() ==> url_safe_char(#[trigger] h[i]));
        assert forall|i: int| 0 <= i < h.len() implies h[i] != '.' by {
            assert(url_safe_char(h[i]));
        }
        assert forall|i: int| 0 <= i < c.len() implies c[i] != '.' by {
            assert(url_safe_char(c[i]));
        }
        assert forall|i: int| 0 <= i < s.len() implies s[i] != '.' by {
            assert(url_safe_char(s[i]));
        }
        lemma_split_single(h, '.');
        lemma_split_single(c, '.');
        lemma_split_single(s, '.');
        assert(token@ =~= h + seq!['.'] + c + seq!['.'] + s);
        crate::paths::lemma_split_append(h + seq!['.'] + c, s, '.');
        crate::paths::lemma_split_append(h, c, '.');
        assert(split_on(token@, '.') =~= seq![h, c, s]);
        assert(input_text@ =~= h + "."@ + c);
    }
    string_of(token.as_slice())
}

/// Opens a token signed with `secret`: checks its shape and signature and decodes its
/// header. Gives the header's JSON bytes and the claims segment, which the caller checks
/// and decodes in turn.
pub fn open_jwt(secret: &str, token: &str) -> (r: Result<(Vec<u8>, String), AuthError>)
    ensures
        match open_jwt_spec(secret@, token@) {
            Ok((h, c)) => r matches Ok((hv, cv)) && hv@ == h && cv@ == c,
            Err(e) => r == Err::<(Vec<u8>, String), AuthError>(e),
        },
{
    let parts = split_char(chars_of(token).as_slice(), '.');
    if parts.len() != 3 {
        return Err(AuthError::InvalidToken);
    }
    let ghost pv = piece_views(parts@);
    assert(pv[0] == parts@[0]@ && pv[1] == parts@[1]@ && pv[2] == parts@[2]@);
    let mut input = crate::text::slice_range(parts[0].as_slice(), 0, parts[0].len());
    push_str(&mut input, ".");
    push_all(&mut input, parts[1].as_slice());
    assert(input@ =~= pv[0] + "."@ + pv[1]);
    let signature = match base64_url_decode(string_of(parts[2].as_slice()).as_str()) {
        Some(s) => s,
        None => {
            return Err(AuthError::InvalidToken);
        },
    };
    let input_text = string_of(input.as_slice());
    let expected = hmac_sha256(secret.as_bytes(), input_text.as_str().as_bytes());
    if !bytes_equal(expected.as_slice(), signature.as_slice()) {
        return Err(AuthError::InvalidToken);
    }
    let header = match base64_url_decode(string_of(parts[0].as_slice()).as_str()) {
        Some(h) => h,
        None => {
            return Err(AuthError::InvalidToken);
        },
    };
    Ok((header, string_of(parts[1].as_slice())))
}

/// Whether a token header names the HS256 algorithm.
pub fn header_algorithm_ok(alg: Option<&str>) -> (r: bool)
    ensures
        r == (alg matches Some(a) && a@ == "HS256"@),
{
    match alg {
        Some(a) => chars_eq(chars_of(a).as_slice(), chars_of("HS256").as_slice()),
        None => false,
    }
}

/// The bytes of a token's claims segment.
pub fn decode_claims_segment(segment: &str) -> (r: Result<Vec<u8>, AuthError>)
    ensures
        match base64_url_bytes(segment@) {
            Some(b) => r matches Ok(v) && v@ == b,
            None => r == Err::<Vec<u8>, AuthError>(AuthError::InvalidToken),
        },
{
    match base64_url_decode(segment) {
        Some(b) => Ok(b),
        None => Err(AuthError::InvalidToken),
    }
}

/// Accepts decoded claims at `now` (seconds since the Unix epoch) for a token of kind
/// `expected`: refused when expired (at or before `now`) or of another kind.
pub fn check_claims(claims: JwtClaims, expected: TokenType, now: i64) -> (r: Result<
    JwtClaims,
    AuthError,
>)
    ensures
        claims.exp <= now ==> r == Err::<JwtClaims, AuthError>(AuthError::ExpiredToken),
        claims.exp > now && claims.token_type@ != token_type_name(expected) ==> r == Err::<
            JwtClaims,
            AuthError,
        >(AuthError::InvalidToken),
        claims.exp > now && claims.token_type@ == token_type_name(expected) ==> r == Ok::<
            JwtClaims,
            AuthError,
        >(claims),
{
    if claims.exp <= now {
        return Err(AuthError::ExpiredToken);
    }
    proof {
        reveal_strlit("access");
        reveal_strlit("refresh");
    }
    let tt = claims.token_type.as_str();
    assert(tt@ == claims.token_type@);
    let parsed = TokenType::from_str(tt);
    assert(claims.token_type@ == token_type_name(expected) ==> parsed == Some(expected));
    let matches = match parsed {
        Some(TokenType::Access) => match expected {
            TokenType::Access => true,
            TokenType::Refresh => false,
        },
        Some(TokenType::Refresh) => match expected {
            TokenType::Access => false,
            TokenType::Refresh => true,
        },
        None => false,
    };
    if !matches {
        return Err(AuthError::InvalidToken);
    }
    Ok(claims)
}

/// The whole seconds before an instant given in nanoseconds (rounded down).
pub open spec fn seconds_spec(nanos: int) -> int {
    nanos / 1_000_000_000
}

fn seconds_of(nanos: i64) -> (r: i64)
    ensures
        r == seconds_spec(nanos as int),
{
    if nanos >= 0 {
        let q = (nanos as u64) / 1_000_000_000u64;
        q as i64
    } else {
        let m = (-(nanos + 1)) as u64;
        let q = m / 1_000_000_000u64;
        assert((nanos as int) / 1_000_000_000 == -(q as int) - 1) by (nonlinear_arith)
            requires
                m as int == -(nanos as int) - 1,
                q as int == (m as int) / 1_000_000_000,
                nanos < 0,
        ;
        -(q as i64) - 1
    }
}

/// The token id of a token issued at `now_nanos` (instants before the epoch count as 0).
pub open spec fn token_id_spec(token_type: TokenType, now_nanos: i64) -> Seq<char> {
    token_type_name(token_type) + "-"@ + decimal(
        if now_nanos >= 0 {
            now_nanos as nat
        } else {
            0
        },
    )
}

/// Whether `c` are the claims of a token of kind `token_type` for `username`, issued at
/// `now_nanos` (nanoseconds since the Unix epoch) and expiring at `exp_nanos`.
pub open spec fn is_token_claims(
    c: JwtClaims,
    username: Seq<char>,
    now_nanos: i64,
    exp_nanos: int,
    token_type: TokenType,
) -> bool {
    &&& c.sub@ == username
    &&& c.iat == seconds_spec(now_nanos as int)
    &&& c.exp == seconds_spec(exp_nanos)
    &&& c.token_type@ == token_type_name(token_type)
    &&& c.jti@ == token_id_spec(token_type, now_nanos)
}

/// The nanoseconds in an hour.
pub const NANOS_PER_HOUR: i64 = 3_600_000_000_000;

/// The claims of a token issued at `now_nanos` that expires at `exp_nanos`.
pub fn token_claims(username: &str, now_nanos: i64, exp_nanos: i64, token_type: TokenType) -> (r:
    JwtClaims)
    ensures
        is_token_claims(r, username@, now_nanos, exp_nanos as int, token_type),
{
    let id_nanos: u64 = if now_nanos >= 0 {
        now_nanos as u64
    } else {
        0
    };
    JwtClaims {
        sub: username.to_string(),
        iat: seconds_of(now_nanos),
        exp: seconds_of(exp_nanos),
        token_type: token_type.as_str().to_string(),
        jti: next_token_id(token_type, id_nanos),
    }
}

/// The token pair of a login or refresh by `username` at `now_nanos` (nanoseconds since
/// the Unix epoch): an access token valid for eight hours and a refresh token valid for
/// thirty days, each signed with `secret`, with their expiry instants.
pub fn issue_token_pair(secret: &str, username: &str, now_nanos: i64) -> (r: LoginResponse)
    requires
        now_nanos + 720 * 3_600_000_000_000 <= i64::MAX,
    ensures
        exists|access: JwtClaims, refresh: JwtClaims|
            #![trigger jwt_spec(secret@, access), jwt_spec(secret@, refresh)]
            is_token_claims(access, username@, now_nanos, now_nanos + 8 * 3_600_000_000_000, TokenType::Access)
                && is_token_claims(
                refresh,
                username@,
                now_nanos,
                now_nanos + 720 * 3_600_000_000_000,
                TokenType::Refresh,
            ) && r.access_token@ == jwt_spec(secret@, access) && r.refresh_token@ == jwt_spec(
                secret@,
                refresh,
            ),
        r.access_token_expires_at@ == crate::conversations::rfc3339_text(
            (now_nanos + 8 * 3_600_000_000_000) as i64,
        ),
        r.refresh_token_expires_at@ == crate::conversations::rfc3339_text(
            (now_nanos + 720 * 3_600_000_000_000) as i64,
        ),
{
    let access_at = now_nanos + ACCESS_TOKEN_LIFETIME_HOURS * NANOS_PER_HOUR;
    let refresh_at = now_nanos + REFRESH_TOKEN_LIFETIME_DAYS * 24 * NANOS_PER_HOUR;
    let access = token_claims(username, now_nanos, access_at, TokenType::Access);
    let refresh = token_claims(username, now_nanos, refresh_at, TokenType::Refresh);
    let access_token = encode_jwt(secret, &access);
    let refresh_token = encode_jwt(secret, &refresh);
    LoginResponse {
        access_token,
        access_token_expires_at: crate::conversations::format_rfc3339(access_at),
        refresh_token,
        refresh_token_expires_at: crate::conversations::format_rfc3339(refresh_at),
    }
}

} // verus!
