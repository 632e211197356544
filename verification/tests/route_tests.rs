use model_proxy::config::{find_config, ModelConfig};
use model_proxy::errors::RequestFailure;
use model_proxy::route::{build_target_url, parse_path, plan_request};
use model_proxy::transform::HttpMethod;

fn record(id: &str, model: Option<&str>, base_url: Option<&str>, api_key: Option<&str>) -> ModelConfig {
    ModelConfig {
        id: id.to_string(),
        model: model.map(|s| s.to_string()),
        base_url: base_url.map(|s| s.to_string()),
        api_key: api_key.map(|s| s.to_string()),
    }
}

#[test]
fn parse_path_accepts_the_route_pattern() {
    let (id, sub) = parse_path("/abc/v1/chat/completions").unwrap();
    assert_eq!(id, "abc");
    assert_eq!(sub, "chat/completions");

    let (id, sub) = parse_path("/m-1/v1/x").unwrap();
    assert_eq!(id, "m-1");
    assert_eq!(sub, "x");
}

#[test]
fn parse_path_rejects_everything_else() {
    assert!(parse_path("").is_none());
    assert!(parse_path("/").is_none());
    assert!(parse_path("abc/v1/x").is_none());
    assert!(parse_path("/abc").is_none());
    assert!(parse_path("/abc/v1").is_none());
    assert!(parse_path("/abc/v1/").is_none());
    assert!(parse_path("/abc/v2/x").is_none());
    assert!(parse_path("//v1/x").is_none());
    assert!(parse_path("/a/b/v1/x").is_none());
    assert!(parse_path("/v1/x").is_none());
}

#[test]
fn target_url_trims_trailing_slashes() {
    assert_eq!(
        build_target_url("http://up.example:9", "chat/completions"),
        "http://up.example:9/chat/completions"
    );
    assert_eq!(build_target_url("http://up.example/", "x"), "http://up.example/x");
    assert_eq!(build_target_url("http://up.example///", "x/y"), "http://up.example/x/y");
}

#[test]
fn find_config_takes_the_first_match() {
    let configs = vec![
        record("a", Some("first"), None, None),
        record("a", Some("second"), None, None),
        record("b", Some("other"), None, None),
    ];
    let c = find_config(&configs, &"a".to_string()).unwrap();
    assert_eq!(c.model.as_deref(), Some("first"));
    let c = find_config(&configs, &"b".to_string()).unwrap();
    assert_eq!(c.model.as_deref(), Some("other"));
    assert!(find_config(&configs, &"c".to_string()).is_none());
}

#[test]
fn absent_identifier_is_not_found() {
    let configs = vec![record("a", None, Some("http://up.example"), None)];
    let r = plan_request(
        &configs,
        &"missing".to_string(),
        "chat/completions",
        HttpMethod::Post,
        &Vec::new(),
        Vec::new(),
    );
    match r {
        Err(f) => {
            assert!(matches!(f, RequestFailure::IdentifierNotFound));
            assert_eq!(f.status_code(), 404);
        }
        Ok(_) => panic!("expected a not-found failure"),
    }
}

#[test]
fn missing_base_url_is_bad_request() {
    let configs = vec![record("a", Some("m"), None, Some("k"))];
    let r = plan_request(
        &configs,
        &"a".to_string(),
        "chat/completions",
        HttpMethod::Post,
        &Vec::new(),
        Vec::new(),
    );
    match r {
        Err(f) => {
            assert!(matches!(f, RequestFailure::MissingBaseUrl));
            assert_eq!(f.status_code(), 400);
        }
        Ok(_) => panic!("expected a missing-base-url failure"),
    }
}

#[test]
fn failure_status_codes() {
    assert_eq!(RequestFailure::ConfigUnreadable.status_code(), 500);
    assert_eq!(RequestFailure::IdentifierNotFound.status_code(), 404);
    assert_eq!(RequestFailure::MissingBaseUrl.status_code(), 400);
    assert_eq!(RequestFailure::BodyUnreadable.status_code(), 400);
    assert_eq!(RequestFailure::UpstreamFailure.status_code(), 502);
    assert_eq!(RequestFailure::ResponseAssembly.status_code(), 500);
}

#[test]
fn successful_plan_carries_url_headers_and_body() {
    let configs = vec![record(
        "prov",
        Some("foo"),
        Some("http://up.example/"),
        Some("secret"),
    )];
    let headers = vec![
        model_proxy::headers::HeaderField {
            name: b"Host".to_vec(),
            value: b"localhost:8080".to_vec(),
        },
        model_proxy::headers::HeaderField {
            name: b"x-custom".to_vec(),
            value: b"v".to_vec(),
        },
    ];
    let body = br#"{"model":"bar","x":1}"#.to_vec();
    let plan = plan_request(
        &configs,
        &"prov".to_string(),
        "chat/completions",
        HttpMethod::Post,
        &headers,
        body,
    )
    .unwrap();
    assert_eq!(plan.url, "http://up.example/chat/completions");

    let names: Vec<&[u8]> = plan.headers.iter().map(|h| h.name.as_slice()).collect();
    assert!(!names.contains(&b"Host".as_slice()));
    assert!(names.contains(&b"x-custom".as_slice()));
    let auth = plan
        .headers
        .iter()
        .find(|h| h.name == b"authorization".to_vec())
        .unwrap();
    assert_eq!(auth.value, b"Bearer secret".to_vec());

    let v: serde_json::Value = serde_json::from_slice(&plan.body).unwrap();
    assert_eq!(v.get("model").unwrap().as_str(), Some("foo"));
    assert_eq!(v.get("x").unwrap().as_i64(), Some(1));
}
