//! The body half of the request transformer: the conditional rewrite of the
//! `model` member of JSON request bodies on well-known completion endpoints.

use vstd::prelude::*;
use crate::text::{ends_with, str_ends_with};

verus! {

/// The HTTP method of an inbound request, as the proxy's decisions read it.
/// Every method dispatches; only `Post` makes a body rewrite eligible.
#[derive(PartialEq, Eq, Structural, Clone, Copy, Debug)]
pub enum HttpMethod {
    Get,
    Post,
    Put,
    Delete,
    Patch,
    Head,
    Options,
    Other,
}

/// A body rewrite applies only to a POST whose subpath ends with one of the
/// well-known completion endpoint tails. This is a suffix heuristic, not a
/// full-path equality, and deliberately kept so.
pub open spec fn rewrite_eligible(method: HttpMethod, subpath: Seq<char>) -> bool {
    method == HttpMethod::Post && (ends_with(subpath, "chat/completions"@) || ends_with(
        subpath,
        "messages"@,
    ))
}

/// Whether the conditional body rewrite applies to this request.
pub fn is_rewrite_eligible(method: HttpMethod, subpath: &str) -> (r: bool)
    ensures
        r == rewrite_eligible(method, subpath@),
{
    match method {
        HttpMethod::Post => str_ends_with(subpath, "chat/completions") || str_ends_with(
            subpath,
            "messages",
        ),
        _ => false,
    }
}

/// What serde_json computes for the model rewrite of `body`: where the
/// bytes parse as a JSON document with a top-level object, that object with
/// its `model` member set to the given name, re-serialized; nothing
/// otherwise. A function of the bytes and the name alone.
pub uninterp spec fn json_model_rewrite(body: Seq<u8>, model: Seq<char>) -> Option<Seq<u8>>;

/// Relies on serde_json's `from_slice`, `Map::insert` and `to_vec`: parses
/// the body, and exactly when it is a JSON document whose top-level value
/// is an object, returns it re-serialized with the `model` member set.
/// Serializing a string-keyed map cannot fail, so no success is lost there.
#[verifier::external_body]
fn set_model_field(body: &Vec<u8>, model: &String) -> (r: Option<Vec<u8>>)
    ensures
        r is Some <==> json_model_rewrite(body@, model@) is Some,
        r matches Some(v) ==> json_model_rewrite(body@, model@) == Some(v@),
{
    match serde_json::from_slice::<serde_json::Value>(body.as_slice()) {
        Ok(serde_json::Value::Object(mut map)) => {
            map.insert("model".to_string(), serde_json::Value::String(model.clone()));
            serde_json::to_vec(&map).ok()
        },
        _ => None,
    }
}

/// The forwarded body: when the rewrite is eligible and a non-empty model
/// name is configured, the body with its `model` member overridden where it
/// parses as a JSON object; in every other case, the inbound bytes
/// untouched. A parse failure never fails the request.
pub open spec fn spec_forward_body(
    body: Seq<u8>,
    model: Option<String>,
    method: HttpMethod,
    subpath: Seq<char>,
) -> Seq<u8> {
    if rewrite_eligible(method, subpath) && model is Some && model.unwrap()@.len() > 0 {
        match json_model_rewrite(body, model.unwrap()@) {
            Some(b) => b,
            None => body,
        }
    } else {
        body
    }
}

/// Applies the conditional model rewrite to the inbound body bytes.
pub fn rewrite_body(body: Vec<u8>, model: &Option<String>, method: HttpMethod, subpath: &str) -> (out:
    Vec<u8>)
    ensures
        out@ == spec_forward_body(body@, *model, method, subpath@),
{
    if !is_rewrite_eligible(method, subpath) {
        return body;
    }
    let name = match model {
        Some(name) => name,
        None => {
            return body;
        },
    };
    if name.as_str().is_empty() {
        return body;
    }
    match set_model_field(&body, name) {
        Some(out) => out,
        None => body,
    }
}

/// Law: a request whose method is not POST is never rewritten — the
/// forwarded body equals the inbound body, whatever the subpath and
/// whatever is configured.
pub proof fn lemma_non_post_body_passes_through(
    body: Seq<u8>,
    model: Option<String>,
    method: HttpMethod,
    subpath: Seq<char>,
)
    requires
        method != HttpMethod::Post,
    ensures
        spec_forward_body(body, model, method, subpath) == body,
{
}

/// Law: where serde_json yields no rewrite — the body does not parse as a
/// JSON document with a top-level object — the body is forwarded
/// byte-for-byte unmodified, and the parse failure itself raises no error.
pub proof fn lemma_unrewritten_body_passes_through(
    body: Seq<u8>,
    model: Option<String>,
    method: HttpMethod,
    subpath: Seq<char>,
)
    requires
        model matches Some(m) ==> json_model_rewrite(body, m@) is None,
    ensures
        spec_forward_body(body, model, method, subpath) == body,
{
}

} // verus!
