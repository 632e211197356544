//! The header half of the request transformer: a byte-level model of HTTP
//! header lists, removal of the `host` and `content-length` fields, and
//! bearer-credential injection.

use vstd::prelude::*;

verus! {

/// One HTTP header field: a name (compared case-insensitively) and a value,
/// both kept as raw bytes as they stand on the wire.
pub struct HeaderField {
    pub name: Vec<u8>,
    pub value: Vec<u8>,
}

/// The mathematical model of a header list: the sequence of its
/// (name, value) byte sequences, in order.
pub open spec fn header_model(h: Seq<HeaderField>) -> Seq<(Seq<u8>, Seq<u8>)> {
    Seq::new(h.len(), |i: int| (h[i].name@, h[i].value@))
}

/// ASCII lowering of one byte.
pub open spec fn lower_byte(b: u8) -> u8 {
    if 65 <= b <= 90 {
        (b + 32) as u8
    } else {
        b
    }
}

/// ASCII lowering of a byte sequence.
pub open spec fn lower_bytes(s: Seq<u8>) -> Seq<u8> {
    s.map_values(|b: u8| lower_byte(b))
}

/// The header name `host`, lowered.
pub open spec fn host_name() -> Seq<u8> {
    seq![104u8, 111u8, 115u8, 116u8]
}

/// The header name `content-length`, lowered.
pub open spec fn content_length_name() -> Seq<u8> {
    seq![99u8, 111u8, 110u8, 116u8, 101u8, 110u8, 116u8, 45u8, 108u8, 101u8, 110u8, 103u8, 116u8, 104u8]
}

/// The header name `authorization`, lowered.
pub open spec fn authorization_name() -> Seq<u8> {
    seq![97u8, 117u8, 116u8, 104u8, 111u8, 114u8, 105u8, 122u8, 97u8, 116u8, 105u8, 111u8, 110u8]
}

/// A name that must never reach the upstream: `host` (the listener's own
/// host) or `content-length` (recomputed from the forwarded body).
pub open spec fn is_stripped_name(name: Seq<u8>) -> bool {
    lower_bytes(name) == host_name() || lower_bytes(name) == content_length_name()
}

/// A field that header sanitization keeps.
pub open spec fn keep_field(p: (Seq<u8>, Seq<u8>)) -> bool {
    !is_stripped_name(p.0)
}

/// The sanitized header list: every field except `host` and
/// `content-length`, in the inbound order.
pub open spec fn spec_sanitize(m: Seq<(Seq<u8>, Seq<u8>)>) -> Seq<(Seq<u8>, Seq<u8>)> {
    m.filter(|p: (Seq<u8>, Seq<u8>)| keep_field(p))
}

/// A field that is not an `authorization` field.
pub open spec fn keep_non_authorization(p: (Seq<u8>, Seq<u8>)) -> bool {
    lower_bytes(p.0) != authorization_name()
}

/// The header list with every `authorization` field removed.
pub open spec fn spec_strip_authorization(m: Seq<(Seq<u8>, Seq<u8>)>) -> Seq<(Seq<u8>, Seq<u8>)> {
    m.filter(|p: (Seq<u8>, Seq<u8>)| keep_non_authorization(p))
}

/// The header value `Bearer <key>`.
pub open spec fn bearer_value(key: Seq<u8>) -> Seq<u8> {
    seq![66u8, 101u8, 97u8, 114u8, 101u8, 114u8, 32u8] + key
}

/// A byte accepted inside an HTTP header value: visible or obs-text bytes
/// and horizontal tab, never other control bytes.
pub open spec fn header_value_byte_ok(b: u8) -> bool {
    (b >= 32 && b != 127) || b == 9
}

/// A byte sequence accepted as an HTTP header value.
pub open spec fn valid_header_value(v: Seq<u8>) -> bool {
    forall|i: int| 0 <= i < v.len() ==> header_value_byte_ok(v[i])
}

/// Credential injection applies exactly when a key is present, non-empty,
/// and its `Bearer` value is a syntactically valid header value.
pub open spec fn injection_applies(key: Option<Seq<u8>>) -> bool {
    key is Some && key.unwrap().len() > 0 && valid_header_value(bearer_value(key.unwrap()))
}

/// The header list after credential injection: when injection applies,
/// every caller-supplied `authorization` field is replaced by a single
/// `authorization: Bearer <key>` field appended at the end; otherwise the
/// list is unchanged.
pub open spec fn spec_inject(m: Seq<(Seq<u8>, Seq<u8>)>, key: Option<Seq<u8>>) -> Seq<
    (Seq<u8>, Seq<u8>),
> {
    if injection_applies(key) {
        spec_strip_authorization(m).push((authorization_name(), bearer_value(key.unwrap())))
    } else {
        m
    }
}

/// The full header transformation: sanitize, then inject the credential.
pub open spec fn spec_transform_headers(
    m: Seq<(Seq<u8>, Seq<u8>)>,
    key: Option<Seq<u8>>,
) -> Seq<(Seq<u8>, Seq<u8>)> {
    spec_inject(spec_sanitize(m), key)
}

/// A fresh copy of a byte vector.
pub fn copy_bytes(v: &Vec<u8>) -> (r: Vec<u8>)
    ensures
        r@ == v@,
{
    let mut r: Vec<u8> = Vec::new();
    let mut i: usize = 0;
    while i < v.len()
        invariant
            i <= v@.len(),
            r@ == v@.subrange(0, i as int),
        decreases v@.len() - i,
    {
        r.push(v[i]);
        proof {
            assert(r@ =~= v@.subrange(0, i as int + 1));
        }
        i += 1;
    }
    proof {
        assert(v@.subrange(0, v@.len() as int) =~= v@);
    }
    r
}

fn lower_byte_exec(b: u8) -> (r: u8)
    ensures
        r == lower_byte(b),
{
    if 65 <= b && b <= 90 {
        b + 32
    } else {
        b
    }
}

/// The lowered form of `name` equals `target` (which is already lowered).
fn lowered_eq(name: &Vec<u8>, target: &Vec<u8>) -> (r: bool)
    ensures
        r == (lower_bytes(name@) == target@),
{
    if name.len() != target.len() {
        return false;
    }
    let mut i: usize = 0;
    while i < name.len()
        invariant
            i <= name@.len(),
            name@.len() == target@.len(),
            forall|j: int| 0 <= j < i ==> lower_byte(name@[j]) == target@[j],
        decreases name@.len() - i,
    {
        if lower_byte_exec(name[i]) != target[i] {
            proof {
                assert(lower_bytes(name@)[i as int] == lower_byte(name@[i as int]));
            }
            return false;
        }
        i += 1;
    }
    proof {
        assert(lower_bytes(name@) =~= target@);
    }
    true
}

fn host_name_vec() -> (r: Vec<u8>)
    ensures
        r@ == host_name(),
{
    let mut v: Vec<u8> = Vec::new();
    v.push(104u8);
    v.push(111u8);
    v.push(115u8);
    v.push(116u8);
    proof {
        assert(v@ =~= host_name());
    }
    v
}

fn content_length_name_vec() -> (r: Vec<u8>)
    ensures
        r@ == content_length_name(),
{
    let mut v: Vec<u8> = Vec::new();
    v.push(99u8);
    v.push(111u8);
    v.push(110u8);
    v.push(116u8);
    v.push(101u8);
    v.push(110u8);
    v.push(116u8);
    v.push(45u8);
    v.push(108u8);
    v.push(101u8);
    v.push(110u8);
    v.push(103u8);
    v.push(116u8);
    v.push(104u8);
    proof {
        assert(v@ =~= content_length_name());
    }
    v
}

fn authorization_name_vec() -> (r: Vec<u8>)
    ensures
        r@ == authorization_name(),
{
    let mut v: Vec<u8> = Vec::new();
    v.push(97u8);
    v.push(117u8);
    v.push(116u8);
    v.push(104u8);
    v.push(111u8);
    v.push(114u8);
    v.push(105u8);
    v.push(122u8);
    v.push(97u8);
    v.push(116u8);
    v.push(105u8);
    v.push(111u8);
    v.push(110u8);
    proof {
        assert(v@ =~= authorization_name());
    }
    v
}

/// The byte vector `Bearer <key>`.
pub fn build_bearer_value(key: &Vec<u8>) -> (r: Vec<u8>)
    ensures
        r@ == bearer_value(key@),
{
    let mut v: Vec<u8> = Vec::new();
    v.push(66u8);
    v.push(101u8);
    v.push(97u8);
    v.push(114u8);
    v.push(101u8);
    v.push(114u8);
    v.push(32u8);
    let mut i: usize = 0;
    while i < key.len()
        invariant
            i <= key@.len(),
            v@ == seq![66u8, 101u8, 97u8, 114u8, 101u8, 114u8, 32u8] + key@.subrange(0, i as int),
        decreases key@.len() - i,
    {
        v.push(key[i]);
        proof {
            assert(v@ =~= seq![66u8, 101u8, 97u8, 114u8, 101u8, 114u8, 32u8] + key@.subrange(
                0,
                i as int + 1,
            ));
        }
        i += 1;
    }
    proof {
        assert(key@.subrange(0, key@.len() as int) =~= key@);
    }
    v
}

/// Every byte of `v` is accepted inside an HTTP header value. This is the
/// byte rule that the http crate's `HeaderValue` constructors enforce.
pub fn header_value_ok(v: &Vec<u8>) -> (r: bool)
    ensures
        r == valid_header_value(v@),
{
    let mut i: usize = 0;
    while i < v.len()
        invariant
            i <= v@.len(),
            forall|j: int| 0 <= j < i ==> header_value_byte_ok(v@[j]),
        decreases v@.len() - i,
    {
        let b = v[i];
        if !((b >= 32 && b != 127) || b == 9) {
            return false;
        }
        i += 1;
    }
    true
}

proof fn lemma_sanitize_push(m: Seq<(Seq<u8>, Seq<u8>)>, x: (Seq<u8>, Seq<u8>))
    ensures
        spec_sanitize(m.push(x)) == (if keep_field(x) {
            spec_sanitize(m).push(x)
        } else {
            spec_sanitize(m)
        }),
{
    broadcast use Seq::lemma_filter_push;
}

proof fn lemma_strip_authorization_push(m: Seq<(Seq<u8>, Seq<u8>)>, x: (Seq<u8>, Seq<u8>))
    ensures
        spec_strip_authorization(m.push(x)) == (if keep_non_authorization(x) {
            spec_strip_authorization(m).push(x)
        } else {
            spec_strip_authorization(m)
        }),
{
    broadcast use Seq::lemma_filter_push;
}

/// Removes the `host` and `content-length` fields, keeping everything else
/// in the inbound order.
pub fn sanitize_headers(headers: &Vec<HeaderField>) -> (out: Vec<HeaderField>)
    ensures
        header_model(out@) == spec_sanitize(header_model(headers@)),
{
    let host = host_name_vec();
    let clen = content_length_name_vec();
    let mut out: Vec<HeaderField> = Vec::new();
    let mut i: usize = 0;
    while i < headers.len()
        invariant
            i <= headers@.len(),
            host@ == host_name(),
            clen@ == content_length_name(),
            header_model(out@) == spec_sanitize(header_model(headers@.subrange(0, i as int))),
        decreases headers@.len() - i,
    {
        let ghost prev_model = header_model(out@);
        let ghost prefix = headers@.subrange(0, i as int);
        let ghost entry = (headers@[i as int].name@, headers@[i as int].value@);
        let keep = !(lowered_eq(&headers[i].name, &host) || lowered_eq(&headers[i].name, &clen));
        if keep {
            let field = HeaderField {
                name: copy_bytes(&headers[i].name),
                value: copy_bytes(&headers[i].value),
            };
            out.push(field);
            proof {
                assert(header_model(out@) =~= prev_model.push(entry));
            }
        }
        proof {
            assert(headers@.subrange(0, i as int + 1) =~= prefix.push(headers@[i as int]));
            assert(header_model(prefix.push(headers@[i as int])) =~= header_model(prefix).push(
                entry,
            ));
            lemma_sanitize_push(header_model(prefix), entry);
        }
        i += 1;
    }
    proof {
        assert(headers@.subrange(0, headers@.len() as int) =~= headers@);
    }
    out
}

/// When `key` is present, non-empty and yields a valid header value,
/// replaces every caller-supplied `authorization` field with a single
/// `authorization: Bearer <key>` field; otherwise returns the list
/// unchanged. An invalid constructed value skips the injection silently.
pub fn inject_authorization(headers: &Vec<HeaderField>, key: Option<&Vec<u8>>) -> (out: Vec<
    HeaderField,
>)
    ensures
        header_model(out@) == spec_inject(
            header_model(headers@),
            match key {
                Some(k) => Some(k@),
                None => None,
            },
        ),
{
    let k = match key {
        Some(k) => k,
        None => {
            return copy_header_list(headers);
        },
    };
    if k.len() == 0 {
        return copy_header_list(headers);
    }
    let bearer = build_bearer_value(k);
    if !header_value_ok(&bearer) {
        return copy_header_list(headers);
    }
    let auth = authorization_name_vec();
    let mut out: Vec<HeaderField> = Vec::new();
    let mut i: usize = 0;
    while i < headers.len()
        invariant
            i <= headers@.len(),
            auth@ == authorization_name(),
            header_model(out@) == spec_strip_authorization(
                header_model(headers@.subrange(0, i as int)),
            ),
        decreases headers@.len() - i,
    {
        let ghost prev_model = header_model(out@);
        let ghost prefix = headers@.subrange(0, i as int);
        let ghost entry = (headers@[i as int].name@, headers@[i as int].value@);
        let keep = !lowered_eq(&headers[i].name, &auth);
        if keep {
            let field = HeaderField {
                name: copy_bytes(&headers[i].name),
                value: copy_bytes(&headers[i].value),
            };
            out.push(field);
            proof {
                assert(header_model(out@) =~= prev_model.push(entry));
            }
        }
        proof {
            assert(headers@.subrange(0, i as int + 1) =~= prefix.push(headers@[i as int]));
            assert(header_model(prefix.push(headers@[i as int])) =~= header_model(prefix).push(
                entry,
            ));
            lemma_strip_authorization_push(header_model(prefix), entry);
        }
        i += 1;
    }
    let ghost stripped = header_model(out@);
    let injected = HeaderField { name: auth, value: bearer };
    out.push(injected);
    proof {
        assert(headers@.subrange(0, headers@.len() as int) =~= headers@);
        assert(header_model(out@) =~= stripped.push(
            (authorization_name(), bearer_value(k@)),
        ));
    }
    out
}

/// A fresh copy of a header list.
pub fn copy_header_list(headers: &Vec<HeaderField>) -> (out: Vec<HeaderField>)
    ensures
        header_model(out@) == header_model(headers@),
{
    let mut out: Vec<HeaderField> = Vec::new();
    let mut i: usize = 0;
    while i < headers.len()
        invariant
            i <= headers@.len(),
            header_model(out@) == header_model(headers@.subrange(0, i as int)),
        decreases headers@.len() - i,
    {
        let ghost prev_model = header_model(out@);
        let field = HeaderField {
            name: copy_bytes(&headers[i].name),
            value: copy_bytes(&headers[i].value),
        };
        out.push(field);
        proof {
            let entry = (headers@[i as int].name@, headers@[i as int].value@);
            assert(header_model(out@) =~= prev_model.push(entry));
            assert(header_model(headers@.subrange(0, i as int + 1)) =~= header_model(
                headers@.subrange(0, i as int),
            ).push(entry));
        }
        i += 1;
    }
    proof {
        assert(headers@.subrange(0, headers@.len() as int) =~= headers@);
    }
    out
}

/// The full header transformation: strip `host` and `content-length`, then
/// inject the bearer credential when it applies.
pub fn transform_headers(headers: &Vec<HeaderField>, key: Option<&Vec<u8>>) -> (out: Vec<
    HeaderField,
>)
    ensures
        header_model(out@) == spec_transform_headers(
            header_model(headers@),
            match key {
                Some(k) => Some(k@),
                None => None,
            },
        ),
{
    let sanitized = sanitize_headers(headers);
    inject_authorization(&sanitized, key)
}

proof fn lemma_sanitize_all_kept(m: Seq<(Seq<u8>, Seq<u8>)>)
    ensures
        forall|i: int|
            0 <= i < spec_sanitize(m).len() ==> keep_field(#[trigger] spec_sanitize(m)[i]),
    decreases m.len(),
{
    if m.len() > 0 {
        let d = m.drop_last();
        assert(d.push(m.last()) =~= m);
        lemma_sanitize_all_kept(d);
        lemma_sanitize_push(d, m.last());
    }
}

proof fn lemma_strip_auth_all_non_auth(s: Seq<(Seq<u8>, Seq<u8>)>)
    ensures
        forall|i: int|
            0 <= i < spec_strip_authorization(s).len() ==> keep_non_authorization(
                #[trigger] spec_strip_authorization(s)[i],
            ),
    decreases s.len(),
{
    if s.len() > 0 {
        let d = s.drop_last();
        assert(d.push(s.last()) =~= s);
        lemma_strip_auth_all_non_auth(d);
        lemma_strip_authorization_push(d, s.last());
    }
}

proof fn lemma_strip_auth_preserves_kept(s: Seq<(Seq<u8>, Seq<u8>)>)
    requires
        forall|i: int| 0 <= i < s.len() ==> keep_field(#[trigger] s[i]),
    ensures
        forall|i: int|
            0 <= i < spec_strip_authorization(s).len() ==> keep_field(
                #[trigger] spec_strip_authorization(s)[i],
            ),
    decreases s.len(),
{
    if s.len() > 0 {
        let d = s.drop_last();
        assert(d.push(s.last()) =~= s);
        assert(forall|i: int| 0 <= i < d.len() ==> keep_field(#[trigger] d[i]));
        lemma_strip_auth_preserves_kept(d);
        lemma_strip_authorization_push(d, s.last());
    }
}

/// Law: the inbound `host` and `content-length` fields never appear in the
/// transformed header list, whatever the inbound headers and whatever the
/// configured key.
pub proof fn lemma_stripped_names_never_forwarded(m: Seq<(Seq<u8>, Seq<u8>)>, key: Option<Seq<u8>>)
    ensures
        forall|i: int|
            0 <= i < spec_transform_headers(m, key).len() ==> !is_stripped_name(
                (#[trigger] spec_transform_headers(m, key)[i]).0,
            ),
{
    let sanitized = spec_sanitize(m);
    lemma_sanitize_all_kept(m);
    if injection_applies(key) {
        lemma_strip_auth_preserves_kept(sanitized);
        assert(lower_bytes(authorization_name()).len() == authorization_name().len());
    }
}

/// Law: the transformed list carries the injected credential exactly when
/// one applies — a present, non-empty key with a valid `Bearer` value.
/// Then the last field is `authorization: Bearer <key>` and no other field
/// is an `authorization` field; otherwise the sanitized inbound fields,
/// any caller-supplied `authorization` among them, pass through unchanged.
pub proof fn lemma_authorization_injection(m: Seq<(Seq<u8>, Seq<u8>)>, key: Option<Seq<u8>>)
    ensures
        injection_applies(key) ==> ({
            let out = spec_transform_headers(m, key);
            out.len() > 0 && out.last() == (authorization_name(), bearer_value(key.unwrap()))
                && (forall|i: int|
                0 <= i < out.len() - 1 ==> keep_non_authorization(#[trigger] out[i]))
        }),
        !injection_applies(key) ==> spec_transform_headers(m, key) == spec_sanitize(m),
{
    if injection_applies(key) {
        lemma_strip_auth_all_non_auth(spec_sanitize(m));
    }
}

} // verus!
