//! Management API authentication: HS256 JSON Web Tokens and role-based credentials.
//!
//! A token is `base64url(header) . base64url(claims) . base64url(HMAC-SHA256(secret,
//! base64url(header) . base64url(claims)))`, unpadded. The claims are framed as compact JSON
//! here, their strings written by `serde_json`; reading them back into a `Claims` value, the clock and the secret are left to the
//! caller.
use vstd::prelude::*;
use base64::Engine;
use vstd::string::StringSliceAdditionalSpecFns;
use vstd::utf8::encode_utf8;
use crate::codec::{bytes_eq_at, extend_bytes};
use crate::kdf::{hmac_sha256_tag, spec_hmac_sha256};
use crate::text::{decimal, push_decimal, push_str};

verus! {

/// Lifetime of an issued token: 24 hours.
pub const TOKEN_EXPIRY_SECS: u64 = 86400;

/// `{"alg":"HS256","typ":"JWT"}`, the token header.
pub const JWT_HEADER_JSON: [u8; 27] = [
    0x7b, 0x22, 0x61, 0x6c, 0x67, 0x22, 0x3a, 0x22, 0x48, 0x53, 0x32, 0x35, 0x36, 0x22, 0x2c, 0x22,
    0x74, 0x79, 0x70, 0x22, 0x3a, 0x22, 0x4a, 0x57, 0x54, 0x22, 0x7d,
];

/// Claims carried by a token.
#[derive(Debug, Clone)]
pub struct Claims {
    pub sub: String,
    pub tenant: String,
    pub role: String,
    pub exp: u64,
    pub iat: u64,
}

/// A login attempt.
#[derive(Debug)]
pub struct LoginRequest {
    pub username: String,
    pub password: String,
}

/// The answer to a successful login.
#[derive(Debug)]
pub struct TokenResponse {
    pub access_token: Vec<u8>,
    pub token_type: &'static str,
    pub expires_in: u64,
    pub role: &'static str,
    pub tenant: &'static str,
}

/// Why authentication failed.
#[derive(Debug, Clone, Copy, PartialEq, Eq, Structural)]
pub enum AuthError {
    InvalidCredentials,
    InvalidTokenFormat,
    InvalidSignature,
    MalformedPayload,
    TokenExpired,
    /// The claims do not fit an encodable token.
    TokenTooLarge,
}

/// `Bearer `, the prefix a presented token may carry.
pub const BEARER_PREFIX: [u8; 7] = [0x42, 0x65, 0x61, 0x72, 0x65, 0x72, 0x20];

// ---------------------------------------------------------------------------------------------
// Unpadded URL-safe base64 through the `base64` crate.

/// Unpadded URL-safe base64 encoding of `data`.
pub uninterp spec fn b64url_of(data: Seq<u8>) -> Seq<u8>;

/// What decoding unpadded URL-safe base64 text gives, if it is well formed.
pub uninterp spec fn b64url_decoded(text: Seq<u8>) -> Option<Seq<u8>>;

/// A character of the URL-safe base64 alphabet.
pub open spec fn is_b64url_char(c: u8) -> bool {
    (0x41 <= c <= 0x5a) || (0x61 <= c <= 0x7a) || (0x30 <= c <= 0x39) || c == 0x2d || c == 0x5f
}

/// Trusted: `URL_SAFE_NO_PAD.encode`. The contract names the text, states that it uses only
/// the URL-safe alphabet (no padding), and that decoding it gives `data` back.
#[verifier::external_body]
fn b64url_encode(data: &[u8]) -> (r: Vec<u8>)
    requires
        data@.len() <= usize::MAX / 2,
    ensures
        r@ == b64url_of(data@),
        forall|i: int| 0 <= i < r@.len() ==> #[trigger] is_b64url_char(r@[i]),
        b64url_decoded(r@) == Some(data@),
{
    base64::engine::general_purpose::URL_SAFE_NO_PAD.encode(data).into_bytes()
}

/// Trusted: `URL_SAFE_NO_PAD.decode`; `None` on a decode error. The contract names the result.
#[verifier::external_body]
fn b64url_decode(text: &[u8]) -> (r: Option<Vec<u8>>)
    ensures
        match r {
            Some(v) => b64url_decoded(text@) == Some(v@),
            None => b64url_decoded(text@) is None,
        },
{
    base64::engine::general_purpose::URL_SAFE_NO_PAD.decode(text).ok()
}

// ---------------------------------------------------------------------------------------------
// Credentials

/// The fixed user store: user name and password to role and tenant.
pub open spec fn credential_entry(user: Seq<u8>, password: Seq<u8>) -> Option<(Seq<char>, Seq<char>)> {
    if user == encode_utf8("admin"@) && password == encode_utf8("REDACTED"@) {
        Some(("admin"@, "default"@))
    } else if user == encode_utf8("operator"@) && password == encode_utf8("dfim_ops_2026"@) {
        Some(("operator"@, "default"@))
    } else if user == encode_utf8("readonly"@) && password == encode_utf8("dfim_ro_2026"@) {
        Some(("readonly"@, "default"@))
    } else if user == encode_utf8("acme_admin"@) && password == encode_utf8("acme_pass"@) {
        Some(("admin"@, "acme-corp"@))
    } else if user == encode_utf8("megabank_op"@) && password == encode_utf8("bank_pass"@) {
        Some(("operator"@, "megabank"@))
    } else {
        None
    }
}

fn same_text(a: &str, b: &str) -> (r: bool)
    ensures
        r == (a.spec_bytes() == b.spec_bytes()),
{
    let x = a.as_bytes();
    let y = b.as_bytes();
    if x.len() != y.len() {
        return false;
    }
    let r = bytes_eq_at(x, 0, y);
    assert(x@.subrange(0, y@.len() as int) =~= x@);
    r
}

/// Role and tenant of a user whose password matches the store.
pub fn validate_credentials(username: &str, password: &str) -> (res: Option<(&'static str, &'static str)>)
    ensures
        match credential_entry(username.spec_bytes(), password.spec_bytes()) {
            Some((role, tenant)) => res matches Some((r, t)) && r@ == role && t@ == tenant,
            None => res is None,
        },
{
    if same_text(username, "admin") && same_text(password, "REDACTED") {
        Some(("admin", "default"))
    } else if same_text(username, "operator") && same_text(password, "dfim_ops_2026") {
        Some(("operator", "default"))
    } else if same_text(username, "readonly") && same_text(password, "dfim_ro_2026") {
        Some(("readonly", "default"))
    } else if same_text(username, "acme_admin") && same_text(password, "acme_pass") {
        Some(("admin", "acme-corp"))
    } else if same_text(username, "megabank_op") && same_text(password, "bank_pass") {
        Some(("operator", "megabank"))
    } else {
        None
    }
}

// ---------------------------------------------------------------------------------------------
// Tokens

/// The JSON text of a string as `serde_json` writes it: quoted, with its escapes.
pub uninterp spec fn json_string_of(s: Seq<char>) -> Seq<u8>;

/// Trusted: `serde_json::to_vec` on a string slice. Serialising a string into a `Vec` cannot
/// fail in the `serde_json` source; the contract names the text it writes.
#[verifier::external_body]
fn json_string(s: &str) -> (r: Vec<u8>)
    ensures
        r@ == json_string_of(s@),
{
    serde_json::to_vec(s).unwrap_or_default()
}

/// Compact JSON of claims, fields in declaration order: each string as `serde_json` writes
/// it, each number in decimal.
pub open spec fn claims_json(sub: Seq<char>, tenant: Seq<char>, role: Seq<char>, exp: u64, iat: u64) -> Seq<u8> {
    encode_utf8("{\"sub\":"@) + json_string_of(sub) + encode_utf8(",\"tenant\":"@) + json_string_of(tenant)
        + encode_utf8(",\"role\":"@) + json_string_of(role) + encode_utf8(",\"exp\":"@) + decimal(
        exp as nat,
    ) + encode_utf8(",\"iat\":"@) + decimal(iat as nat) + encode_utf8("}"@)
}

/// Signature part of a token over its header and payload parts.
pub open spec fn token_signature(secret: Seq<u8>, header: Seq<u8>, payload: Seq<u8>) -> Seq<u8> {
    b64url_of(spec_hmac_sha256(secret, header + seq![0x2eu8] + payload)@)
}

/// The token carrying `payload_json` under `secret`.
pub open spec fn token_of(secret: Seq<u8>, payload_json: Seq<u8>) -> Seq<u8> {
    let h = b64url_of(JWT_HEADER_JSON@);
    let p = b64url_of(payload_json);
    h + seq![0x2eu8] + p + seq![0x2eu8] + token_signature(secret, h, p)
}

/// The token carrying `payload_json`: header and payload encoded, then signed.
pub fn sign_payload(payload_json: &[u8], secret: &[u8]) -> (token: Vec<u8>)
    requires
        payload_json@.len() <= usize::MAX / 2,
    ensures
        token@ == token_of(secret@, payload_json@),
        ({
            let j = next_dot(token@, next_dot(token@, 0) + 1);
            &&& 0 <= j < token@.len() && token@[j] == 0x2e
            &&& token@.subrange(0, j) == b64url_of(JWT_HEADER_JSON@) + seq![0x2eu8] + b64url_of(payload_json@)
            &&& token@.subrange(j + 1, token@.len() as int) == b64url_of(
                spec_hmac_sha256(secret@, token@.subrange(0, j))@,
            )
        }),
{
    let header = b64url_encode(&JWT_HEADER_JSON);
    let payload = b64url_encode(payload_json);
    let mut signing_input: Vec<u8> = Vec::new();
    extend_bytes(&mut signing_input, header.as_slice());
    signing_input.push(0x2e);
    extend_bytes(&mut signing_input, payload.as_slice());
    let ghost hp = header@ + seq![0x2eu8] + payload@;
    assert(signing_input@ =~= hp);
    let mac = hmac_sha256_tag(secret, signing_input.as_slice());
    let signature = b64url_encode(&mac);
    assert(signature@ == token_signature(secret@, header@, payload@));
    let mut token = signing_input;
    token.push(0x2e);
    extend_bytes(&mut token, signature.as_slice());
    assert(token@ =~= token_of(secret@, payload_json@));
    proof {
        lemma_three_part_token(header@, payload@, signature@);
    }
    token
}

/// Issues a token for a user, valid for 24 hours from `now`.
pub fn issue_token(username: &str, role: &str, tenant: &str, now: u64, secret: &[u8]) -> (res: Result<
    Vec<u8>,
    AuthError,
>)
    requires
        now + TOKEN_EXPIRY_SECS <= u64::MAX,
    ensures
        ({
            let json = claims_json(username@, tenant@, role@, (now + TOKEN_EXPIRY_SECS) as u64, now);
            &&& json.len() <= usize::MAX / 2 ==> (res matches Ok(token) && token@ == token_of(secret@, json))
            &&& json.len() > usize::MAX / 2 ==> res == Err::<Vec<u8>, AuthError>(AuthError::TokenTooLarge)
        }),
        res matches Ok(token) ==> ({
            let j = next_dot(token@, next_dot(token@, 0) + 1);
            &&& 0 <= j < token@.len() && token@[j] == 0x2e
            &&& token@.subrange(j + 1, token@.len() as int) == b64url_of(
                spec_hmac_sha256(secret@, token@.subrange(0, j))@,
            )
        }),
{
    let mut payload_json: Vec<u8> = Vec::new();
    push_str(&mut payload_json, "{\"sub\":");
    let sub = json_string(username);
    extend_bytes(&mut payload_json, sub.as_slice());
    push_str(&mut payload_json, ",\"tenant\":");
    let ten = json_string(tenant);
    extend_bytes(&mut payload_json, ten.as_slice());
    push_str(&mut payload_json, ",\"role\":");
    let rol = json_string(role);
    extend_bytes(&mut payload_json, rol.as_slice());
    push_str(&mut payload_json, ",\"exp\":");
    push_decimal(&mut payload_json, now + TOKEN_EXPIRY_SECS);
    push_str(&mut payload_json, ",\"iat\":");
    push_decimal(&mut payload_json, now);
    push_str(&mut payload_json, "}");
    if payload_json.len() > usize::MAX / 2 {
        return Err(AuthError::TokenTooLarge);
    }
    Ok(sign_payload(payload_json.as_slice(), secret))
}

/// `t` with every leading `Bearer ` removed.
pub open spec fn strip_bearer(t: Seq<u8>) -> Seq<u8>
    decreases t.len(),
{
    if t.len() >= 7 && t.subrange(0, 7) == BEARER_PREFIX@ {
        strip_bearer(t.subrange(7, t.len() as int))
    } else {
        t
    }
}

/// Position of the first `.` in `t` at or after `from`, or the length.
pub open spec fn next_dot(t: Seq<u8>, from: int) -> int
    decreases t.len() - from,
{
    if from < 0 || from >= t.len() {
        t.len() as int
    } else if t[from] == 0x2e {
        from
    } else {
        next_dot(t, from + 1)
    }
}

/// What checking a presented token gives: the decoded claims JSON, or why it is refused.
/// The token must have exactly three dot-separated parts and a signature that matches.
pub open spec fn token_outcome(presented: Seq<u8>, secret: Seq<u8>) -> Result<Seq<u8>, AuthError> {
    let t = strip_bearer(presented);
    let i = next_dot(t, 0);
    let j = next_dot(t, i + 1);
    let h = t.subrange(0, i);
    let p = t.subrange(i + 1, j);
    let s = t.subrange(j + 1, t.len() as int);
    if i >= t.len() || j >= t.len() || next_dot(t, j + 1) != t.len() {
        Err(AuthError::InvalidTokenFormat)
    } else if s != token_signature(secret, h, p) {
        Err(AuthError::InvalidSignature)
    } else {
        match b64url_decoded(p) {
            Some(json) => Ok(json),
            None => Err(AuthError::MalformedPayload),
        }
    }
}

fn find_dot(t: &[u8], from: usize) -> (r: usize)
    requires
        from <= t@.len(),
    ensures
        r == next_dot(t@, from as int),
        from <= r <= t@.len(),
{
    let n = t.len();
    let mut k = from;
    while k < n && t[k] != 0x2e
        invariant
            n == t@.len(),
            from <= k <= n,
            next_dot(t@, from as int) == next_dot(t@, k as int),
        decreases n - k,
    {
        k = k + 1;
    }
    k
}

fn bytes_equal(a: &[u8], b: &[u8]) -> (r: bool)
    ensures
        r == (a@ == b@),
{
    if a.len() != b.len() {
        return false;
    }
    let r = bytes_eq_at(a, 0, b);
    assert(a@.subrange(0, b@.len() as int) =~= a@);
    r
}

/// Checks a presented token (with or without `Bearer ` in front) and returns the claims JSON
/// it carries.
pub fn verify_jwt(presented: &str, secret: &[u8]) -> (res: Result<Vec<u8>, AuthError>)
    ensures
        match token_outcome(presented.spec_bytes(), secret@) {
            Ok(json) => res matches Ok(v) && v@ == json,
            Err(e) => res == Err::<Vec<u8>, AuthError>(e),
        },
        res is Ok ==> ({
            let t = strip_bearer(presented.spec_bytes());
            let j = next_dot(t, next_dot(t, 0) + 1);
            &&& 0 <= j < t.len() && t[j] == 0x2e
            &&& t.subrange(j + 1, t.len() as int) == b64url_of(spec_hmac_sha256(secret@, t.subrange(0, j))@)
        }),
{
    let res = verify_jwt_parts(presented, secret);
    proof {
        if res is Ok {
            law_accepted_token_signs_header_and_payload(presented.spec_bytes(), secret@);
        }
    }
    res
}

fn verify_jwt_parts(presented: &str, secret: &[u8]) -> (res: Result<Vec<u8>, AuthError>)
    ensures
        match token_outcome(presented.spec_bytes(), secret@) {
            Ok(json) => res matches Ok(v) && v@ == json,
            Err(e) => res == Err::<Vec<u8>, AuthError>(e),
        },
{
    let b = presented.as_bytes();
    let n = b.len();
    let mut start: usize = 0;
    assert(b@.subrange(0, n as int) =~= b@);
    while n - start >= 7 && bytes_eq_at(b, start, &BEARER_PREFIX)
        invariant
            n == b@.len(),
            start <= n,
            strip_bearer(b@) == strip_bearer(b@.subrange(start as int, n as int)),
        decreases n - start,
    {
        proof {
            let rest = b@.subrange(start as int, n as int);
            assert(rest.subrange(0, 7) =~= b@.subrange(start as int, start + 7));
            assert(rest.subrange(7, rest.len() as int) =~= b@.subrange(start + 7, n as int));
        }
        start = start + 7;
    }
    let t = &b[start..n];
    proof {
        let rest = b@.subrange(start as int, n as int);
        assert(t@ == rest);
        if rest.len() >= 7 {
            assert(rest.subrange(0, 7) =~= b@.subrange(start as int, start + 7));
        }
    }
    let m = t.len();
    let i = find_dot(t, 0);
    if i >= m {
        return Err(AuthError::InvalidTokenFormat);
    }
    let j = find_dot(t, i + 1);
    if j >= m {
        return Err(AuthError::InvalidTokenFormat);
    }
    let k = find_dot(t, j + 1);
    if k != m {
        return Err(AuthError::InvalidTokenFormat);
    }
    let mut signing_input: Vec<u8> = Vec::new();
    extend_bytes(&mut signing_input, &t[0..i]);
    signing_input.push(0x2e);
    extend_bytes(&mut signing_input, &t[i + 1..j]);
    let mac = hmac_sha256_tag(secret, signing_input.as_slice());
    proof {
        assert(signing_input@ =~= t@.subrange(0, i as int) + seq![0x2eu8] + t@.subrange(i + 1, j as int));
    }
    let expected = b64url_encode(&mac);
    if !bytes_equal(&t[j + 1..m], expected.as_slice()) {
        return Err(AuthError::InvalidSignature);
    }
    match b64url_decode(&t[i + 1..j]) {
        Some(json) => Ok(json),
        None => Err(AuthError::MalformedPayload),
    }
}

/// A token whose expiry lies before `now` is refused.
pub fn check_expiry(exp: u64, now: u64) -> (res: Result<(), AuthError>)
    ensures
        exp < now ==> res == Err::<(), AuthError>(AuthError::TokenExpired),
        exp >= now ==> res is Ok,
{
    if exp < now {
        Err(AuthError::TokenExpired)
    } else {
        Ok(())
    }
}

/// What checking a presented token at `now` gives once its claims JSON was decoded: the
/// token's own refusal first; then `MalformedPayload` when the JSON did not decode into claims;
/// then `TokenExpired` when the claims expired before `now`; else the claims.
pub open spec fn token_acceptance(
    verified: Result<Seq<u8>, AuthError>,
    claims: Option<Claims>,
    now: u64,
) -> Result<Claims, AuthError> {
    match verified {
        Err(e) => Err(e),
        Ok(_) => match claims {
            None => Err(AuthError::MalformedPayload),
            Some(c) => if c.exp < now {
                Err(AuthError::TokenExpired)
            } else {
                Ok(c)
            },
        },
    }
}

/// The outcome of `verify_jwt` with the claims JSON taken as a sequence.
pub open spec fn verified_view(r: Result<Vec<u8>, AuthError>) -> Result<Seq<u8>, AuthError> {
    match r {
        Ok(v) => Ok(v@),
        Err(e) => Err(e),
    }
}

/// Completes the check of a presented token: takes what `verify_jwt` gave, the claims its
/// JSON decoded into (`None` when it did not decode) and the time, and returns the claims of
/// a token that is well formed, correctly signed and not expired.
pub fn accept_token_claims(verified: Result<Vec<u8>, AuthError>, claims: Option<Claims>, now: u64) -> (res: Result<
    Claims,
    AuthError,
>)
    ensures
        res == token_acceptance(verified_view(verified), claims, now),
{
    match verified {
        Err(e) => Err(e),
        Ok(_) => match claims {
            None => Err(AuthError::MalformedPayload),
            Some(c) => match check_expiry(c.exp, now) {
                Err(e) => Err(e),
                Ok(()) => Ok(c),
            },
        },
    }
}

/// A correctly signed token whose claims expired before `now` is refused as expired, whatever
/// else it carries; one still valid at `now` yields its claims.
pub proof fn law_expired_token_refused(presented: Seq<u8>, secret: Seq<u8>, claims: Claims, now: u64)
    requires
        token_outcome(presented, secret) is Ok,
    ensures
        claims.exp < now ==> token_acceptance(token_outcome(presented, secret), Some(claims), now) == Err::<
            Claims,
            AuthError,
        >(AuthError::TokenExpired),
        claims.exp >= now ==> token_acceptance(token_outcome(presented, secret), Some(claims), now) == Ok::<
            Claims,
            AuthError,
        >(claims),
{
}

/// Logs a user in: checks the credentials and issues a 24-hour bearer token at `now`.
pub fn login(req: &LoginRequest, now: u64, secret: &[u8]) -> (res: Result<TokenResponse, AuthError>)
    requires
        now + TOKEN_EXPIRY_SECS <= u64::MAX,
    ensures
        credential_entry(encode_utf8(req.username@), encode_utf8(req.password@)) is None ==> res == Err::<
            TokenResponse,
            AuthError,
        >(AuthError::InvalidCredentials),
        match credential_entry(encode_utf8(req.username@), encode_utf8(req.password@)) {
            None => true,
            Some((role, tenant)) => {
                let json = claims_json(req.username@, tenant, role, (now + TOKEN_EXPIRY_SECS) as u64, now);
                &&& json.len() <= usize::MAX / 2 ==> (res matches Ok(r) && r.role@ == role && r.tenant@
                    == tenant && r.token_type@ == "Bearer"@ && r.expires_in == TOKEN_EXPIRY_SECS
                    && r.access_token@ == token_of(secret@, json))
                &&& json.len() > usize::MAX / 2 ==> res == Err::<TokenResponse, AuthError>(
                    AuthError::TokenTooLarge,
                )
            },
        },
{
    let (role, tenant) = match validate_credentials(req.username.as_str(), req.password.as_str()) {
        Some(rt) => rt,
        None => {
            return Err(AuthError::InvalidCredentials);
        },
    };
    let token = match issue_token(req.username.as_str(), role, tenant, now, secret) {
        Ok(t) => t,
        Err(e) => {
            return Err(e);
        },
    };
    Ok(TokenResponse { access_token: token, token_type: "Bearer", expires_in: TOKEN_EXPIRY_SECS, role, tenant })
}

proof fn lemma_next_dot_at(t: Seq<u8>, from: int, e: int)
    requires
        0 <= from <= e <= t.len(),
        forall|k: int| from <= k < e ==> t[k] != 0x2e,
        e == t.len() || t[e] == 0x2e,
    ensures
        next_dot(t, from) == e,
    decreases e - from,
{
    if from < e {
        lemma_next_dot_at(t, from + 1, e);
    }
}

/// Text in the URL-safe base64 alphabet.
pub open spec fn all_b64url(x: Seq<u8>) -> bool {
    forall|i: int| 0 <= i < x.len() ==> #[trigger] is_b64url_char(x[i])
}

/// A token signed under a secret is accepted under that secret, bare or behind `Bearer `, and
/// yields the claims JSON it was made from. The encodings involved are those the base64
/// wrapper produces: URL-safe text that decodes back.
pub proof fn law_issued_token_verifies(secret: Seq<u8>, json: Seq<u8>)
    requires
        all_b64url(b64url_of(JWT_HEADER_JSON@)),
        all_b64url(b64url_of(json)),
        all_b64url(token_signature(secret, b64url_of(JWT_HEADER_JSON@), b64url_of(json))),
        b64url_decoded(b64url_of(json)) == Some(json),
    ensures
        token_outcome(token_of(secret, json), secret) == Ok::<Seq<u8>, AuthError>(json),
        token_outcome(BEARER_PREFIX@ + token_of(secret, json), secret) == Ok::<Seq<u8>, AuthError>(json),
{
    let h = b64url_of(JWT_HEADER_JSON@);
    let p = b64url_of(json);
    let sig = token_signature(secret, h, p);
    let t = token_of(secret, json);
    assert(t == h + seq![0x2eu8] + p + seq![0x2eu8] + sig);
    let a = h.len() as int;
    let b = a + 1 + p.len();
    assert forall|k: int| 0 <= k < t.len() implies t[k] != 0x20 by {
        if k < a {
            assert(t[k] == h[k]);
            assert(is_b64url_char(h[k]));
        } else if k == a {
        } else if k < b {
            assert(t[k] == p[k - a - 1]);
            assert(is_b64url_char(p[k - a - 1]));
        } else if k == b {
        } else {
            assert(t[k] == sig[k - b - 1]);
            assert(is_b64url_char(sig[k - b - 1]));
        }
    }
    if t.len() >= 7 && t.subrange(0, 7) == BEARER_PREFIX@ {
        assert(t.subrange(0, 7)[6] == 0x20);
        assert(t[6] == 0x20);
    }
    assert(strip_bearer(t) == t);
    assert forall|k: int| 0 <= k < a implies t[k] != 0x2e by {
        assert(t[k] == h[k]);
        assert(is_b64url_char(h[k]));
    }
    lemma_next_dot_at(t, 0, a);
    assert forall|k: int| a + 1 <= k < b implies t[k] != 0x2e by {
        assert(t[k] == p[k - a - 1]);
        assert(is_b64url_char(p[k - a - 1]));
    }
    lemma_next_dot_at(t, a + 1, b);
    assert forall|k: int| b + 1 <= k < t.len() implies t[k] != 0x2e by {
        assert(t[k] == sig[k - b - 1]);
        assert(is_b64url_char(sig[k - b - 1]));
    }
    lemma_next_dot_at(t, b + 1, t.len() as int);
    assert(t.subrange(0, a) =~= h);
    assert(t.subrange(a + 1, b) =~= p);
    assert(t.subrange(b + 1, t.len() as int) =~= sig);
    let bt = BEARER_PREFIX@ + t;
    assert(bt.subrange(0, 7) =~= BEARER_PREFIX@);
    assert(bt.subrange(7, bt.len() as int) =~= t);
}

/// The position `next_dot` finds is at or after where the search starts, and holds a dot
/// unless it is the end.
proof fn lemma_next_dot_is_dot(t: Seq<u8>, from: int)
    requires
        0 <= from,
    ensures
        from <= next_dot(t, from) || next_dot(t, from) == t.len(),
        next_dot(t, from) <= t.len(),
        next_dot(t, from) < t.len() ==> t[next_dot(t, from)] == 0x2e,
    decreases t.len() - from,
{
    if from < t.len() && t[from] != 0x2e {
        lemma_next_dot_is_dot(t, from + 1);
    }
}

/// An accepted token's signature part is the URL-safe base64 HMAC-SHA256, under the secret,
/// of everything before its second dot: the header part, the dot and the payload part.
pub proof fn law_accepted_token_signs_header_and_payload(presented: Seq<u8>, secret: Seq<u8>)
    requires
        token_outcome(presented, secret) is Ok,
    ensures
        ({
            let t = strip_bearer(presented);
            let i = next_dot(t, 0);
            let j = next_dot(t, i + 1);
            &&& 0 <= i < j < t.len()
            &&& t[i] == 0x2e && t[j] == 0x2e
            &&& t.subrange(j + 1, t.len() as int) == b64url_of(spec_hmac_sha256(secret, t.subrange(0, j))@)
        }),
{
    let t = strip_bearer(presented);
    let i = next_dot(t, 0);
    lemma_next_dot_is_dot(t, 0);
    let j = next_dot(t, i + 1);
    lemma_next_dot_is_dot(t, i + 1);
    assert(t.subrange(0, i) + seq![0x2eu8] + t.subrange(i + 1, j) =~= t.subrange(0, j));
}

/// The dots of a three-part token whose parts are URL-safe base64 text.
proof fn lemma_three_part_token(h: Seq<u8>, p: Seq<u8>, sig: Seq<u8>)
    requires
        all_b64url(h),
        all_b64url(p),
        all_b64url(sig),
    ensures
        ({
            let t = h + seq![0x2eu8] + p + seq![0x2eu8] + sig;
            &&& strip_bearer(t) == t
            &&& next_dot(t, 0) == h.len()
            &&& next_dot(t, h.len() + 1int) == h.len() + 1 + p.len()
            &&& t.subrange(0, (h.len() + 1 + p.len()) as int) == h + seq![0x2eu8] + p
            &&& t.subrange((h.len() + 2 + p.len()) as int, t.len() as int) == sig
        }),
{
    let t = h + seq![0x2eu8] + p + seq![0x2eu8] + sig;
    let a = h.len() as int;
    let b = a + 1 + p.len();
    assert forall|k: int| 0 <= k < t.len() && k != a && k != b implies is_b64url_char(t[k]) by {
        if k < a {
            assert(t[k] == h[k]);
        } else if k < b {
            assert(t[k] == p[k - a - 1]);
        } else {
            assert(t[k] == sig[k - b - 1]);
        }
    }
    assert(t[a] == 0x2e && t[b] == 0x2e);
    if t.len() >= 7 && t.subrange(0, 7) == BEARER_PREFIX@ {
        assert(t.subrange(0, 7)[6] == 0x20);
        assert(t[6] == 0x20);
        assert(6 != a && 6 != b ==> is_b64url_char(t[6]));
    }
    assert(strip_bearer(t) == t);
    assert forall|k: int| 0 <= k < a implies t[k] != 0x2e by {
        assert(is_b64url_char(t[k]));
    }
    lemma_next_dot_at(t, 0, a);
    assert forall|k: int| a + 1 <= k < b implies t[k] != 0x2e by {
        assert(is_b64url_char(t[k]));
    }
    lemma_next_dot_at(t, a + 1, b);
    assert(t.subrange(0, b) =~= h + seq![0x2eu8] + p);
    assert(t.subrange(b + 1, t.len() as int) =~= sig);
}

/// Keeping a token's header and signature but swapping in another payload is accepted only
/// on a collision: the HMAC of the new header-and-payload text must encode to the same
/// signature as that of the original, which is a different text.
pub proof fn law_payload_swap_needs_mac_collision(
    secret: Seq<u8>,
    h: Seq<u8>,
    p: Seq<u8>,
    p2: Seq<u8>,
    sig: Seq<u8>,
)
    requires
        all_b64url(h),
        all_b64url(p),
        all_b64url(p2),
        all_b64url(sig),
        p != p2,
        sig == b64url_of(spec_hmac_sha256(secret, h + seq![0x2eu8] + p)@),
    ensures
        token_outcome(h + seq![0x2eu8] + p2 + seq![0x2eu8] + sig, secret) is Ok ==> h + seq![0x2eu8] + p
            != h + seq![0x2eu8] + p2 && b64url_of(spec_hmac_sha256(secret, h + seq![0x2eu8] + p2)@) == b64url_of(
            spec_hmac_sha256(secret, h + seq![0x2eu8] + p)@,
        ),
{
    let t = h + seq![0x2eu8] + p2 + seq![0x2eu8] + sig;
    lemma_three_part_token(h, p2, sig);
    if token_outcome(t, secret) is Ok {
        law_accepted_token_signs_header_and_payload(t, secret);
        assert(t.subrange((h.len() + 2 + p2.len()) as int, t.len() as int) == sig);
        if h + seq![0x2eu8] + p == h + seq![0x2eu8] + p2 {
            assert((h + seq![0x2eu8] + p).subrange(h.len() + 1int, (h.len() + 1 + p.len()) as int) =~= p);
            assert((h + seq![0x2eu8] + p2).subrange(h.len() + 1int, (h.len() + 1 + p2.len()) as int) =~= p2);
        }
    }
}

/// An issued token is signed over its header and payload parts: its signature part is the
/// URL-safe base64 HMAC-SHA256, under the secret, of everything before its second dot.
pub proof fn law_issued_token_signs_header_and_payload(secret: Seq<u8>, json: Seq<u8>)
    requires
        all_b64url(b64url_of(JWT_HEADER_JSON@)),
        all_b64url(b64url_of(json)),
        all_b64url(token_signature(secret, b64url_of(JWT_HEADER_JSON@), b64url_of(json))),
        b64url_decoded(b64url_of(json)) == Some(json),
    ensures
        ({
            let t = token_of(secret, json);
            let j = next_dot(t, next_dot(t, 0) + 1);
            &&& 0 <= j < t.len() && t[j] == 0x2e
            &&& t.subrange(0, j) == b64url_of(JWT_HEADER_JSON@) + seq![0x2eu8] + b64url_of(json)
            &&& t.subrange(j + 1, t.len() as int) == b64url_of(spec_hmac_sha256(secret, t.subrange(0, j))@)
        }),
{
    law_issued_token_verifies(secret, json);
    let h = b64url_of(JWT_HEADER_JSON@);
    let p = b64url_of(json);
    lemma_three_part_token(h, p, token_signature(secret, h, p));
    law_accepted_token_signs_header_and_payload(token_of(secret, json), secret);
}

} // verus!
