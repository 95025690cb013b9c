use codex_supervisor::middleware::{
    apply_inject, audit_of, end_to_end_headers, is_hop_header, is_inject_path, normalize_base,
    plan_forward, refusal_of, target_url, EnsureStep, Header, MiddlewareError, MiddlewareHub,
    Obstacle, ProxyState, UpstreamOutcome,
};
use codex_supervisor::models::InjectParams;

fn params(temperature: Option<&str>) -> InjectParams {
    InjectParams {
        temperature: temperature.map(str::to_string),
    }
}

fn state() -> ProxyState {
    ProxyState {
        model_key: "test-model".to_string(),
        upstream_base: "http://h:1/v1".to_string(),
        inject: params(Some("0.0")),
    }
}

fn header(name: &str, value: &str) -> Header {
    Header {
        name: name.to_string(),
        value: value.as_bytes().to_vec(),
    }
}

fn json(body: &[u8]) -> serde_json::Value {
    serde_json::from_slice(body).expect("json")
}

#[test]
fn target_url_strips_v1_prefix_against_any_base_shape() {
    assert_eq!(
        target_url("http://h:1/v1", "/v1/responses?a=1"),
        "http://h:1/v1/responses?a=1"
    );
    assert_eq!(
        target_url("http://h:1/api", "/v1/responses"),
        "http://h:1/api/responses",
        "异形上游 base 也不丢路径段"
    );
    assert_eq!(
        target_url("http://h:1/v1", "/health"),
        "http://h:1/v1/health"
    );
}

#[test]
fn inject_path_matching_is_exact_per_prototype_family() {
    assert!(is_inject_path("/v1/responses"));
    assert!(is_inject_path("/v1/chat/completions?x=1"));
    assert!(!is_inject_path("/v1/models"));
    assert!(!is_inject_path("/v1/responses/extra"));
}

#[test]
fn the_temperature_of_the_model_replaces_that_of_the_request() {
    let made = apply_inject(
        br#"{"model":"m","temperature":0.7}"#,
        &params(Some("0.0")),
    )
    .expect("injected");
    assert_eq!(made.had.as_deref(), Some("0.7"));
    let body = json(&made.body);
    assert_eq!(body["temperature"].as_f64(), Some(0.0));
    assert_eq!(body["model"].as_str(), Some("m"));
    assert_eq!(made.body, br#"{"model":"m","temperature":0.0}"#);
}

#[test]
fn a_request_without_temperature_gets_one() {
    let made = apply_inject(b"{}", &params(Some("0.5"))).expect("injected");
    assert_eq!(made.had, None);
    assert_eq!(made.body, br#"{"temperature":0.5}"#);
    let whole = apply_inject(br#"{"temperature":1}"#, &params(Some("0.5"))).expect("injected");
    assert_eq!(whole.had.as_deref(), Some("1.0"));
    let word = apply_inject(br#"{"temperature":"hot"}"#, &params(Some("0.5"))).expect("injected");
    assert_eq!(word.had, None);
    assert_eq!(word.body, made.body);
}

#[test]
fn only_json_objects_are_changed() {
    let wanted = params(Some("0.0"));
    assert!(apply_inject(b"raw-bytes-not-json", &wanted).is_none());
    assert!(apply_inject(b"[1]", &wanted).is_none());
    assert!(apply_inject(b"{}", &params(None)).is_none());
    assert!(apply_inject(b"{}", &params(Some("warm"))).is_none());
    assert!(apply_inject(b"{}", &params(Some("inf"))).is_none());
    assert_eq!(
        apply_inject(b"{}", &params(Some("1"))).expect("injected").body,
        br#"{"temperature":1.0}"#
    );
}

#[test]
fn forwarding_strips_hop_headers_and_keeps_the_others() {
    let plan = plan_forward(
        &state(),
        "POST",
        Some("/v1/responses".to_string()),
        vec![
            header("Proxy-Authorization", "basic sesame"),
            header("x-keep-me", "yes"),
            header("content-length", "31"),
            header("accept", "*/*"),
        ],
        br#"{"model":"m","temperature":0.7}"#.to_vec(),
    );
    assert_eq!(plan.target, "http://h:1/v1/responses");
    let names: Vec<&str> = plan.headers.iter().map(|h| h.name.as_str()).collect();
    assert_eq!(names, vec!["x-keep-me", "accept"]);
    assert_eq!(plan.headers[0].value, b"yes");
    assert!(plan.injected);
    assert_eq!(plan.temperature_had.as_deref(), Some("0.7"));

    let record = audit_of(
        &state(),
        &plan,
        "POST",
        UpstreamOutcome::Answered { status: 200 },
        "now".to_string(),
        12,
    );
    assert!(record.injected);
    assert_eq!(record.temperature_had.as_deref(), Some("0.7"));
    assert_eq!(record.temperature_set.as_deref(), Some("0.0"));
    assert_eq!(record.status, 200);
    assert_eq!(record.model_key, "test-model");
    assert_eq!(record.body_bytes, plan.body.len());
    assert_eq!(record.upstream_error, None);
}

#[test]
fn other_requests_pass_through_untouched() {
    let models = plan_forward(
        &state(),
        "GET",
        Some("/v1/models".to_string()),
        Vec::new(),
        Vec::new(),
    );
    assert_eq!(models.path, "/v1/models");
    assert!(models.body.is_empty());
    let raw = plan_forward(
        &state(),
        "POST",
        Some("/v1/responses".to_string()),
        Vec::new(),
        b"raw-bytes-not-json".to_vec(),
    );
    assert_eq!(raw.body, b"raw-bytes-not-json");
    assert!(!raw.injected);
    let read = plan_forward(
        &state(),
        "GET",
        Some("/v1/responses".to_string()),
        Vec::new(),
        b"{}".to_vec(),
    );
    assert_eq!(read.body, b"{}");
    let bare = plan_forward(&state(), "GET", None, Vec::new(), Vec::new());
    assert_eq!(bare.path, "/");
    assert_eq!(bare.target, "http://h:1/v1/");
}

#[test]
fn a_dead_upstream_is_audited_and_answered() {
    let plan = plan_forward(
        &state(),
        "POST",
        Some("/v1/responses".to_string()),
        Vec::new(),
        b"{}".to_vec(),
    );
    let record = audit_of(
        &state(),
        &plan,
        "POST",
        UpstreamOutcome::Failed {
            error: "refused".to_string(),
        },
        "now".to_string(),
        1,
    );
    assert_eq!(record.status, 502);
    assert_eq!(record.upstream_error.as_deref(), Some("refused"));
    let error = || "e".to_string();
    let dead = refusal_of(Obstacle::DeadUpstream { error: error() });
    assert_eq!((dead.status, dead.body.as_str()), (502, "upstream error: e"));
    let long = refusal_of(Obstacle::UnreadableBody { error: error() });
    assert_eq!((long.status, long.body.as_str()), (413, "read request body: e"));
    let odd = refusal_of(Obstacle::UnusableAnswer { error: error() });
    assert_eq!((odd.status, odd.body.as_str()), (500, "assemble response: e"));
}

#[test]
fn hop_headers_are_known_in_any_case() {
    for name in ["Connection", "TE", "host", "Transfer-Encoding", "upgrade"] {
        assert!(is_hop_header(name), "{name}");
    }
    for name in ["authorization", "content-type", "hosts", "ｈost"] {
        assert!(!is_hop_header(name), "{name}");
    }
    assert!(end_to_end_headers(vec![header("Keep-Alive", "1")]).is_empty());
}

#[test]
fn only_http_upstreams_are_served() {
    assert_eq!(
        normalize_base("http://h:1/v1//").expect("http"),
        "http://h:1/v1"
    );
    assert_eq!(normalize_base("https://h").expect("https"), "https://h");
    let error = normalize_base("ftp://h/").expect_err("ftp");
    assert!(matches!(&error, MiddlewareError::InvalidUpstream(given) if given == "ftp://h/"));
    assert_eq!(error.message(), "上游 base_url 无效: ftp://h/");
    let io = MiddlewareError::Io {
        context: "bind 127.0.0.1:0".to_string(),
        detail: String::new(),
    };
    assert_eq!(io.message(), "中间件监听器启动失败: bind 127.0.0.1:0");
}

#[test]
fn one_listener_per_model_is_reused() {
    let mut hub = MiddlewareHub::new();
    let Ok(EnsureStep::Start(plan)) = hub.ensure("test-model", "http://h:1/v1/", "/audit") else {
        panic!("no listener yet");
    };
    assert_eq!(plan.upstream_base, "http://h:1/v1");
    assert_eq!(plan.audit_path, "/audit/test-model.jsonl");
    let base = hub.started("test-model".to_string(), 4242, plan.audit_path);
    assert_eq!(base, "http://127.0.0.1:4242/v1");
    let Ok(EnsureStep::Ready(again)) = hub.ensure("test-model", "not a url", "/audit") else {
        panic!("the listener is there");
    };
    assert_eq!(again, base);
    let late = hub.started("test-model".to_string(), 5, "/audit/x".to_string());
    assert_eq!(late, base);
    assert!(matches!(
        hub.ensure("other", "not a url", "/audit"),
        Err(MiddlewareError::InvalidUpstream(_))
    ));
    let other = hub.started("other".to_string(), 6, "/audit/other.jsonl".to_string());
    assert_eq!(other, "http://127.0.0.1:6/v1");
}
