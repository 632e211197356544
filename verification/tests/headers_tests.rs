use model_proxy::headers::{
    build_bearer_value, header_value_ok, inject_authorization, sanitize_headers,
    transform_headers, HeaderField,
};

fn field(name: &[u8], value: &[u8]) -> HeaderField {
    HeaderField {
        name: name.to_vec(),
        value: value.to_vec(),
    }
}

fn names(list: &[HeaderField]) -> Vec<Vec<u8>> {
    list.iter().map(|h| h.name.clone()).collect()
}

#[test]
fn host_and_content_length_never_survive() {
    let inbound = vec![
        field(b"Host", b"localhost:8080"),
        field(b"host", b"localhost:8080"),
        field(b"HoSt", b"x"),
        field(b"Content-Length", b"42"),
        field(b"content-length", b"42"),
        field(b"x-custom", b"v"),
        field(b"accept", b"*/*"),
    ];
    let out = sanitize_headers(&inbound);
    let out_names = names(&out);
    assert_eq!(out_names, vec![b"x-custom".to_vec(), b"accept".to_vec()]);
}

#[test]
fn sanitize_keeps_order_and_duplicates() {
    let inbound = vec![
        field(b"a", b"1"),
        field(b"host", b"h"),
        field(b"a", b"2"),
        field(b"b", b"3"),
    ];
    let out = sanitize_headers(&inbound);
    assert_eq!(names(&out), vec![b"a".to_vec(), b"a".to_vec(), b"b".to_vec()]);
    assert_eq!(out[0].value, b"1".to_vec());
    assert_eq!(out[1].value, b"2".to_vec());
}

#[test]
fn bearer_injection_replaces_caller_authorization() {
    let inbound = vec![
        field(b"Authorization", b"Bearer caller"),
        field(b"x-custom", b"v"),
    ];
    let key = b"secret".to_vec();
    let out = inject_authorization(&inbound, Some(&key));
    assert_eq!(out.len(), 2);
    assert_eq!(out[0].name, b"x-custom".to_vec());
    assert_eq!(out[1].name, b"authorization".to_vec());
    assert_eq!(out[1].value, b"Bearer secret".to_vec());
}

#[test]
fn no_key_leaves_caller_authorization_untouched() {
    let inbound = vec![
        field(b"authorization", b"Bearer caller"),
        field(b"x-custom", b"v"),
    ];
    let out = inject_authorization(&inbound, None);
    assert_eq!(out.len(), 2);
    assert_eq!(out[0].name, b"authorization".to_vec());
    assert_eq!(out[0].value, b"Bearer caller".to_vec());
}

#[test]
fn empty_key_skips_injection() {
    let inbound = vec![field(b"authorization", b"Bearer caller")];
    let key = Vec::new();
    let out = inject_authorization(&inbound, Some(&key));
    assert_eq!(out.len(), 1);
    assert_eq!(out[0].value, b"Bearer caller".to_vec());
}

#[test]
fn invalid_key_bytes_skip_injection_silently() {
    let inbound = vec![field(b"x", b"y")];
    let key = b"bad\nkey".to_vec();
    let out = inject_authorization(&inbound, Some(&key));
    assert_eq!(out.len(), 1);
    assert_eq!(out[0].name, b"x".to_vec());
}

#[test]
fn header_value_byte_rule() {
    assert!(header_value_ok(&b"Bearer abc".to_vec()));
    assert!(header_value_ok(&b"\ttabs are fine".to_vec()));
    assert!(header_value_ok(&vec![0xFFu8, 32]));
    assert!(!header_value_ok(&b"line\nbreak".to_vec()));
    assert!(!header_value_ok(&vec![127u8]));
    assert!(!header_value_ok(&vec![0u8]));
}

#[test]
fn bearer_value_shape() {
    assert_eq!(build_bearer_value(&b"k".to_vec()), b"Bearer k".to_vec());
    assert_eq!(build_bearer_value(&Vec::new()), b"Bearer ".to_vec());
}

#[test]
fn full_transform_sanitizes_then_injects() {
    let inbound = vec![
        field(b"Host", b"local"),
        field(b"Content-Length", b"9"),
        field(b"Authorization", b"old"),
        field(b"x-keep", b"1"),
    ];
    let key = b"k2".to_vec();
    let out = transform_headers(&inbound, Some(&key));
    assert_eq!(names(&out), vec![b"x-keep".to_vec(), b"authorization".to_vec()]);
    assert_eq!(out[1].value, b"Bearer k2".to_vec());

    let out = transform_headers(&inbound, None);
    assert_eq!(
        names(&out),
        vec![b"Authorization".to_vec(), b"x-keep".to_vec()]
    );
}
