//! The per-request pipeline: matching the inbound path pattern
//! `/{identifier}/v1/{subpath}`, resolving the identifier to an upstream
//! record, and preparing the forwarded request (target URL, transformed
//! headers, transformed body). Issuing the network call and streaming the
//! response back are the hosting application's part.

use vstd::prelude::*;
use vstd::string::StrSliceExecFns;
use vstd::string::StringExecFns;
use vstd::utf8::encode_utf8;
use crate::config::{spec_find, find_config, ModelConfig};
use crate::errors::RequestFailure;
use crate::headers::{header_model, spec_transform_headers, transform_headers, HeaderField};
use crate::text::{trim_trailing_slashes, trim_trailing_slashes_str};
use crate::transform::{rewrite_body, spec_forward_body, HttpMethod};

verus! {

/// A fully prepared upstream request: the target URL, the transformed
/// header list and the transformed body bytes.
pub struct ForwardPlan {
    pub url: String,
    pub headers: Vec<HeaderField>,
    pub body: Vec<u8>,
}

/// The bytes of a record's configured api key, when one is present.
pub open spec fn spec_key_bytes(c: ModelConfig) -> Option<Seq<u8>> {
    match c.api_key {
        Some(k) => Some(encode_utf8(k@)),
        None => None,
    }
}

/// The target URL for a resolved record: the base URL with every trailing
/// slash trimmed, one slash, then the subpath.
pub open spec fn spec_target_url(base: Seq<char>, subpath: Seq<char>) -> Seq<char> {
    trim_trailing_slashes(base) + "/"@ + subpath
}

/// Builds the target URL from a record's base URL and the inbound subpath.
pub fn build_target_url(base: &str, subpath: &str) -> (r: String)
    ensures
        r@ == spec_target_url(base@, subpath@),
{
    let t = trim_trailing_slashes_str(base);
    let r = t.concat("/");
    let r = r.concat(subpath);
    proof {
        assert(r@ =~= spec_target_url(base@, subpath@));
    }
    r
}

/// The inbound path matches the route pattern with identifier `id` and
/// subpath `sub`: the path is exactly `/{id}/v1/{sub}`, where `id` is one
/// non-empty segment (no slash inside) and `sub` is the non-empty
/// remainder, which may itself contain slashes. Any method dispatches.
pub open spec fn route_match(p: Seq<char>, id: Seq<char>, sub: Seq<char>) -> bool {
    p == seq!['/'] + id + "/v1/"@ + sub && id.len() > 0 && !id.contains('/') && sub.len() > 0
}

proof fn lemma_route_chars(p: Seq<char>, id: Seq<char>, sub: Seq<char>)
    requires
        route_match(p, id, sub),
    ensures
        p.len() == id.len() + sub.len() + 5,
        p[0] == '/',
        forall|j: int| 1 <= j < 1 + id.len() as int ==> p[j] == id[j - 1] && p[j] != '/',
        p[1 + id.len() as int] == '/',
        p[2 + id.len() as int] == 'v',
        p[3 + id.len() as int] == '1',
        p[4 + id.len() as int] == '/',
        forall|j: int| 5 + id.len() as int <= j < p.len() ==> p[j] == sub[j - 5 - id.len() as int],
{
    reveal_strlit("/v1/");
    let v = "/v1/"@;
    assert(v.len() == 4);
    assert(v[0] == '/' && v[1] == 'v' && v[2] == '1' && v[3] == '/');
    let w = seq!['/'] + id + v + sub;
    assert(p == w);
    assert forall|j: int| 1 <= j < 1 + id.len() as int implies p[j] == id[j - 1] && p[j] != '/' by {
        assert(w[j] == id[j - 1]);
        assert(!id.contains('/'));
        if id[j - 1] == '/' {
            assert(id.contains('/'));
        }
    }
    assert(w[1 + id.len() as int] == v[0]);
    assert(w[2 + id.len() as int] == v[1]);
    assert(w[3 + id.len() as int] == v[2]);
    assert(w[4 + id.len() as int] == v[3]);
    assert forall|j: int| 5 + id.len() as int <= j < p.len() implies p[j] == sub[j - 5 - id.len() as int] by {
        assert(w[j] == sub[j - 5 - id.len() as int]);
    }
}

proof fn lemma_route_first_slash(p: Seq<char>, id: Seq<char>, sub: Seq<char>, i: int)
    requires
        route_match(p, id, sub),
        1 <= i < p.len(),
        p[i] == '/',
        forall|j: int| 1 <= j < i ==> p[j] != '/',
    ensures
        i == 1 + id.len(),
{
    lemma_route_chars(p, id, sub);
    if i < 1 + id.len() {
        assert(p[i] != '/');
    }
    if i > 1 + id.len() {
        assert(p[1 + id.len() as int] != '/');
    }
}

/// Matches the inbound path against `/{identifier}/v1/{subpath}` and
/// extracts the two components; yields nothing exactly when the path does
/// not have that form.
pub fn parse_path(path: &str) -> (r: Option<(String, String)>)
    ensures
        r matches Some(pair) ==> route_match(path@, pair.0@, pair.1@),
        r is None ==> (forall|id: Seq<char>, sub: Seq<char>| !route_match(path@, id, sub)),
{
    let n: usize = path.unicode_len();
    if n == 0 || path.get_char(0) != '/' {
        proof {
            assert forall|id: Seq<char>, sub: Seq<char>| !route_match(path@, id, sub) by {
                if route_match(path@, id, sub) {
                    lemma_route_chars(path@, id, sub);
                }
            }
        }
        return None;
    }
    let mut i: usize = 1;
    while i < n && path.get_char(i) != '/'
        invariant
            1 <= i <= n,
            n == path@.len(),
            forall|j: int| 1 <= j < i ==> path@[j] != '/',
        decreases n - i,
    {
        i += 1;
    }
    if i == n {
        proof {
            assert forall|id: Seq<char>, sub: Seq<char>| !route_match(path@, id, sub) by {
                if route_match(path@, id, sub) {
                    lemma_route_chars(path@, id, sub);
                    assert(path@[1 + id.len() as int] == '/');
                }
            }
        }
        return None;
    }
    if i == 1 {
        proof {
            assert forall|id: Seq<char>, sub: Seq<char>| !route_match(path@, id, sub) by {
                if route_match(path@, id, sub) {
                    lemma_route_first_slash(path@, id, sub, 1);
                    lemma_route_chars(path@, id, sub);
                }
            }
        }
        return None;
    }
    if n - i < 5 {
        proof {
            assert forall|id: Seq<char>, sub: Seq<char>| !route_match(path@, id, sub) by {
                if route_match(path@, id, sub) {
                    lemma_route_first_slash(path@, id, sub, i as int);
                    lemma_route_chars(path@, id, sub);
                }
            }
        }
        return None;
    }
    if !(path.get_char(i + 1) == 'v' && path.get_char(i + 2) == '1' && path.get_char(i + 3)
        == '/') {
        proof {
            assert forall|id: Seq<char>, sub: Seq<char>| !route_match(path@, id, sub) by {
                if route_match(path@, id, sub) {
                    lemma_route_first_slash(path@, id, sub, i as int);
                    lemma_route_chars(path@, id, sub);
                }
            }
        }
        return None;
    }
    let id = path.substring_char(1, i).to_owned();
    let sub = path.substring_char(i + 4, n).to_owned();
    proof {
        reveal_strlit("/v1/");
        assert(!id@.contains('/')) by {
            if id@.contains('/') {
                let k = choose|k: int| 0 <= k < id@.len() && id@[k] == '/';
                assert(path@[1 + k] == '/');
            }
        }
        assert(path@ =~= seq!['/'] + id@ + "/v1/"@ + sub@);
    }
    Some((id, sub))
}

/// Resolves the identifier against the freshly loaded records and prepares
/// the forwarded request. Resolution failures come back as the
/// per-request failure the router reports: `IdentifierNotFound` when no
/// record matches, `MissingBaseUrl` when the matched record has no base
/// URL — in that case no network call may be attempted. On success the
/// plan carries the target URL, the sanitized and credentialed headers,
/// and the conditionally rewritten body.
pub fn plan_request(
    configs: &Vec<ModelConfig>,
    identifier: &String,
    subpath: &str,
    method: HttpMethod,
    headers: &Vec<HeaderField>,
    body: Vec<u8>,
) -> (r: Result<ForwardPlan, RequestFailure>)
    ensures
        spec_find(configs@, identifier@) is None ==> (r matches Err(f) && f
            == RequestFailure::IdentifierNotFound),
        spec_find(configs@, identifier@) matches Some(c) ==> ((c.base_url is None ==> (r matches Err(
            f,
        ) && f == RequestFailure::MissingBaseUrl)) && (c.base_url matches Some(b) ==> (r matches Ok(
            p,
        ) && p.url@ == spec_target_url(b@, subpath@) && header_model(p.headers@)
            == spec_transform_headers(header_model(headers@), spec_key_bytes(c)) && p.body@
            == spec_forward_body(body@, c.model, method, subpath@)))),
{
    let config = match find_config(configs, identifier) {
        Some(c) => c,
        None => {
            return Err(RequestFailure::IdentifierNotFound);
        },
    };
    let base = match &config.base_url {
        Some(b) => b,
        None => {
            return Err(RequestFailure::MissingBaseUrl);
        },
    };
    let url = build_target_url(base.as_str(), subpath);
    let key_bytes = match &config.api_key {
        Some(k) => Some(k.as_str().as_bytes_vec()),
        None => None,
    };
    let key_ref = match &key_bytes {
        Some(k) => Some(k),
        None => None,
    };
    let new_headers = transform_headers(headers, key_ref);
    let new_body = rewrite_body(body, &config.model, method, subpath);
    Ok(ForwardPlan { url, headers: new_headers, body: new_body })
}

} // verus!
