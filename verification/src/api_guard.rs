//! Request rules of the management API: which routes are rate-limited and which must carry a
//! bearer token, HTML-escaping of enrolled text, page-size caps and content identifiers.
use vstd::prelude::*;
use vstd::string::StringSliceAdditionalSpecFns;
use vstd::utf8::encode_utf8;
use crate::codec::bytes_eq_at;
use crate::digest::{hex_of, sha256_digest, spec_sha256};
use crate::text::{push_hex, push_str, replace_char, replaced_char};

verus! {

/// What the request guard applies to a route.
#[derive(Clone, Copy, Debug, PartialEq, Eq, Structural)]
pub enum RouteGuard {
    /// Health and metrics: neither rate-limited nor authenticated.
    Open,
    /// The API description and the login route: rate-limited, no token needed.
    RateLimited,
    /// Every other route: rate-limited and authenticated.
    Authenticated,
}

/// The guard of a request path.
pub open spec fn route_guard(path: Seq<u8>) -> RouteGuard {
    if path == encode_utf8("/health"@) || path == encode_utf8("/metrics"@) {
        RouteGuard::Open
    } else if path == encode_utf8("/openapi.json"@) || path == encode_utf8("/v1/auth/login"@) {
        RouteGuard::RateLimited
    } else {
        RouteGuard::Authenticated
    }
}

fn is_path(path: &str, lit: &str) -> (r: bool)
    ensures
        r == (path.spec_bytes() == lit.spec_bytes()),
{
    let a = path.as_bytes();
    let b = lit.as_bytes();
    if a.len() != b.len() {
        return false;
    }
    let r = bytes_eq_at(a, 0, b);
    assert(a@.subrange(0, b@.len() as int) =~= a@);
    r
}

/// Classifies a request path for the rate-limit and authentication guard.
pub fn guard_route(path: &str) -> (g: RouteGuard)
    ensures
        g == route_guard(path.spec_bytes()),
{
    if is_path(path, "/health") || is_path(path, "/metrics") {
        RouteGuard::Open
    } else if is_path(path, "/openapi.json") || is_path(path, "/v1/auth/login") {
        RouteGuard::RateLimited
    } else {
        RouteGuard::Authenticated
    }
}

/// HTML escape of a text: `&`, `<`, `>`, `"` and `'` become entities (ampersands first, so
/// entities are not escaped twice).
pub open spec fn html_escaped(s: Seq<char>) -> Seq<char> {
    replaced_char(
        replaced_char(
            replaced_char(replaced_char(replaced_char(s, '&', "&amp;"@), '<', "&lt;"@), '>', "&gt;"@),
            '"',
            "&quot;"@,
        ),
        '\'',
        "&#x27;"@,
    )
}

/// Escapes enrolled text before it is stored.
pub fn sanitize(input: &str) -> (out: String)
    ensures
        out@ == html_escaped(input@),
{
    let a = replace_char(input, '&', "&amp;");
    let b = replace_char(a.as_str(), '<', "&lt;");
    let c = replace_char(b.as_str(), '>', "&gt;");
    let d = replace_char(c.as_str(), '"', "&quot;");
    replace_char(d.as_str(), '\'', "&#x27;")
}

/// `sha256:` followed by the lowercase hex SHA-256 of `data`.
pub fn hash_sha256(data: &[u8]) -> (id: Vec<u8>)
    ensures
        id@ == encode_utf8("sha256:"@) + hex_of(spec_sha256(data@)@),
{
    let digest = sha256_digest(data);
    let mut id: Vec<u8> = Vec::new();
    push_str(&mut id, "sha256:");
    push_hex(&mut id, &digest);
    id
}

/// Default page size of listings.
pub const DEFAULT_PAGE_LIMIT: i64 = 100;

/// Hard cap on the page size of listings.
pub const MAX_PAGE_LIMIT: i64 = 1000;

/// The page size of a listing: the requested one (100 when absent), at most 1000.
pub fn page_limit(requested: Option<i64>) -> (limit: i64)
    ensures
        limit == (match requested {
            Some(l) => if l < MAX_PAGE_LIMIT {
                l
            } else {
                MAX_PAGE_LIMIT
            },
            None => DEFAULT_PAGE_LIMIT,
        }),
{
    let l = match requested {
        Some(l) => l,
        None => DEFAULT_PAGE_LIMIT,
    };
    if l < MAX_PAGE_LIMIT {
        l
    } else {
        MAX_PAGE_LIMIT
    }
}

} // verus!
