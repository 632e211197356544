use model_proxy::events::{ProxyErrorPayload, ProxyRequestPayload, ProxyStatusPayload};

#[test]
fn status_payload_carries_the_transition() {
    let p = ProxyStatusPayload::new("running".to_string(), "127.0.0.1".to_string(), 8080);
    assert_eq!(p.status, "running");
    assert_eq!(p.host, "127.0.0.1");
    assert_eq!(p.port, 8080);
}

#[test]
fn request_payload_carries_the_route() {
    let p = ProxyRequestPayload::new(
        "POST".to_string(),
        "prov".to_string(),
        "chat/completions".to_string(),
    );
    assert_eq!(p.method, "POST");
    assert_eq!(p.model_id, "prov");
    assert_eq!(p.path, "chat/completions");
}

#[test]
fn error_payload_carries_title_and_message() {
    let p = ProxyErrorPayload::new("t".to_string(), "m".to_string());
    assert_eq!(p.title, "t");
    assert_eq!(p.message, "m");
}
