use vstd::prelude::*;

use crate::text::{chars_of, has_prefix, slice_chars, starts_with_chars, str_eq, string_from_chars};

verus! {

/// The prefix of an `Authorization` header that carries a bearer token.
pub open spec fn bearer_prefix() -> Seq<char> {
    "Bearer "@
}

/// Endpoints that answer without a token: the health probe and the branding.
pub open spec fn spec_is_public_path(path: Seq<char>) -> bool {
    path == "/api/health"@ || path == "/api/config/branding"@
}

/// The token an `Authorization` header carries: what follows "Bearer ".
pub open spec fn spec_bearer_token(header: Option<Seq<char>>) -> Option<Seq<char>> {
    match header {
        Some(h) => if has_prefix(h, bearer_prefix()) {
            Some(h.skip(bearer_prefix().len() as int))
        } else {
            None
        },
        None => None,
    }
}

/// `api_token_middleware`'s decision: public endpoints and a service without
/// a configured token let every request through; otherwise the request must
/// carry exactly the configured token.
pub open spec fn spec_request_allowed(
    path: Seq<char>,
    expected_token: Option<Seq<char>>,
    header: Option<Seq<char>>,
) -> bool {
    ||| spec_is_public_path(path)
    ||| expected_token is None
    ||| (expected_token matches Some(t) && spec_bearer_token(header) == Some(t))
}

pub open spec fn opt_text(o: Option<String>) -> Option<Seq<char>> {
    match o {
        Some(s) => Some(s@),
        None => None,
    }
}

pub fn is_public_path(path: &str) -> (r: bool)
    ensures
        r == spec_is_public_path(path@),
{
    str_eq(path, "/api/health") || str_eq(path, "/api/config/branding")
}

/// `bearer_token`: the token of an `Authorization` header value (`None` when
/// the request has no readable header).
pub fn bearer_token(header: &Option<String>) -> (r: Option<String>)
    ensures
        opt_text(r) == spec_bearer_token(opt_text(*header)),
{
    match header {
        None => None,
        Some(h) => {
            let v = chars_of(h.as_str());
            let p = chars_of("Bearer ");
            proof {
                reveal_strlit("Bearer ");
            }
            if starts_with_chars(&v, &p) {
                let rest = slice_chars(&v, p.len(), v.len());
                proof {
                    assert(rest@ =~= v@.skip(bearer_prefix().len() as int));
                }
                Some(string_from_chars(&rest))
            } else {
                None
            }
        },
    }
}

/// Whether a request to `path` with this `Authorization` header may proceed.
pub fn request_allowed(path: &str, expected_token: &Option<String>, header: &Option<String>) -> (r: bool)
    ensures
        r == spec_request_allowed(path@, opt_text(*expected_token), opt_text(*header)),
{
    if is_public_path(path) {
        return true;
    }
    match expected_token {
        None => true,
        Some(t) => match bearer_token(header) {
            Some(given) => str_eq(given.as_str(), t.as_str()),
            None => false,
        },
    }
}

/// With a token configured, a request to any endpoint but the health probe
/// and the branding is let through exactly when its `Authorization` header
/// reads "Bearer " followed by the token.
pub proof fn lemma_token_required(path: Seq<char>, token: Seq<char>, header: Option<Seq<char>>)
    requires
        !spec_is_public_path(path),
    ensures
        spec_request_allowed(path, Some(token), header) <==> header == Some(bearer_prefix() + token),
{
    reveal_strlit("Bearer ");
    match header {
        Some(h) => {
            if spec_bearer_token(header) == Some(token) {
                assert(h =~= bearer_prefix() + token) by {
                    assert(h.subrange(0, 7) == bearer_prefix());
                }
            }
            if h == bearer_prefix() + token {
                assert((bearer_prefix() + token).subrange(0, 7) =~= bearer_prefix());
                assert((bearer_prefix() + token).skip(7) =~= token);
            }
        },
        None => {},
    }
}

/// Without a configured token every request is let through, and the health
/// probe and the branding are always let through.
pub proof fn lemma_open_access(path: Seq<char>, expected_token: Option<Seq<char>>, header: Option<Seq<char>>)
    requires
        expected_token is None || spec_is_public_path(path),
    ensures
        spec_request_allowed(path, expected_token, header),
{
}

} // verus!
