use model_proxy::transform::{is_rewrite_eligible, rewrite_body, HttpMethod};

#[test]
fn eligibility_is_post_plus_suffix() {
    assert!(is_rewrite_eligible(HttpMethod::Post, "chat/completions"));
    assert!(is_rewrite_eligible(HttpMethod::Post, "messages"));
    assert!(is_rewrite_eligible(HttpMethod::Post, "foo/chat/completions"));
    assert!(is_rewrite_eligible(HttpMethod::Post, "deeply/nested/messages"));
    assert!(!is_rewrite_eligible(HttpMethod::Get, "chat/completions"));
    assert!(!is_rewrite_eligible(HttpMethod::Put, "messages"));
    assert!(!is_rewrite_eligible(HttpMethod::Post, "chat/completionsx"));
    assert!(!is_rewrite_eligible(HttpMethod::Post, "embeddings"));
}

#[test]
fn post_chat_completions_overrides_model_and_keeps_other_fields() {
    let body = br#"{"model":"bar","x":1}"#.to_vec();
    let out = rewrite_body(
        body,
        &Some("foo".to_string()),
        HttpMethod::Post,
        "chat/completions",
    );
    let v: serde_json::Value = serde_json::from_slice(&out).unwrap();
    assert_eq!(v.get("model").unwrap().as_str(), Some("foo"));
    assert_eq!(v.get("x").unwrap().as_i64(), Some(1));
}

#[test]
fn messages_endpoint_is_rewritten_too() {
    let body = br#"{"model":"bar"}"#.to_vec();
    let out = rewrite_body(body, &Some("foo".to_string()), HttpMethod::Post, "messages");
    let v: serde_json::Value = serde_json::from_slice(&out).unwrap();
    assert_eq!(v.get("model").unwrap().as_str(), Some("foo"));
}

#[test]
fn model_field_is_added_when_absent() {
    let body = br#"{"x":2}"#.to_vec();
    let out = rewrite_body(
        body,
        &Some("foo".to_string()),
        HttpMethod::Post,
        "chat/completions",
    );
    let v: serde_json::Value = serde_json::from_slice(&out).unwrap();
    assert_eq!(v.get("model").unwrap().as_str(), Some("foo"));
    assert_eq!(v.get("x").unwrap().as_i64(), Some(2));
}

#[test]
fn non_json_body_is_forwarded_unmodified() {
    let body = b"%%%".to_vec();
    let out = rewrite_body(
        body.clone(),
        &Some("foo".to_string()),
        HttpMethod::Post,
        "chat/completions",
    );
    assert_eq!(out, body);
}

#[test]
fn non_object_json_is_forwarded_unmodified() {
    let body = b"[1,2,3]".to_vec();
    let out = rewrite_body(
        body.clone(),
        &Some("foo".to_string()),
        HttpMethod::Post,
        "chat/completions",
    );
    assert_eq!(out, body);
}

#[test]
fn get_requests_are_never_rewritten() {
    let body = br#"{"model":"bar"}"#.to_vec();
    let out = rewrite_body(
        body.clone(),
        &Some("foo".to_string()),
        HttpMethod::Get,
        "chat/completions",
    );
    assert_eq!(out, body);
}

#[test]
fn missing_or_empty_model_name_leaves_the_body() {
    let body = br#"{"model":"bar"}"#.to_vec();
    let out = rewrite_body(body.clone(), &None, HttpMethod::Post, "chat/completions");
    assert_eq!(out, body);
    let out = rewrite_body(
        body.clone(),
        &Some(String::new()),
        HttpMethod::Post,
        "chat/completions",
    );
    assert_eq!(out, body);
}

#[test]
fn ineligible_subpath_leaves_the_body() {
    let body = br#"{"model":"bar"}"#.to_vec();
    let out = rewrite_body(
        body.clone(),
        &Some("foo".to_string()),
        HttpMethod::Post,
        "embeddings",
    );
    assert_eq!(out, body);
}
