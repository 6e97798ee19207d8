use llm_proxy::error::config::ConfigError;
use llm_proxy::error::proxy::{describe_upstream, ProxyError};
use llm_proxy::error::Error;

fn answer(error: ProxyError) -> (u16, String) {
    let (status, body) = error.into_response();
    (status, body.to_string())
}

#[test]
fn model_not_allowed() {
    let error = ProxyError::ModelNotAllowed {
        model: "x".to_string(),
        allowed: vec!["a".to_string(), "b".to_string(), "c".to_string()],
    };
    assert_eq!(
        answer(error),
        (400, "{\"error\":\"Model 'x' not allowed. Allowed: a, b, c\"}".to_string())
    );
    let error = ProxyError::ModelNotAllowed {
        model: "(missing)".to_string(),
        allowed: vec![],
    };
    assert_eq!(error.message(), "Model '(missing)' not allowed. Allowed: ");
}

#[test]
fn unauthorized() {
    assert_eq!(
        answer(ProxyError::Unauthorized),
        (401, "{\"error\":\"Missing or invalid Authorization header\"}".to_string())
    );
}

#[test]
fn upstream_failures() {
    assert_eq!(
        answer(ProxyError::UpstreamTimeout),
        (504, "{\"error\":\"Upstream request timed out\"}".to_string())
    );
    assert_eq!(
        answer(ProxyError::UpstreamConnection("refused".to_string())),
        (502, "{\"error\":\"Upstream connection error: refused\"}".to_string())
    );
    assert_eq!(
        answer(ProxyError::StreamRead("cut \"off\"".to_string())),
        (502, "{\"error\":\"Stream read error: cut \\\"off\\\"\"}".to_string())
    );
}

#[test]
fn upstream_response_keeps_its_status() {
    let error = |status: u16| ProxyError::UpstreamResponse {
        status,
        body: "why".to_string(),
    };
    assert_eq!(
        answer(error(404)),
        (404, "{\"error\":\"Upstream returned 404 Not Found: why\"}".to_string())
    );
    assert_eq!(error(429).message(), "Upstream returned 429 Too Many Requests: why");
    assert_eq!(
        error(999).message(),
        "Upstream returned 999 <unknown status code>: why"
    );
    assert_eq!(error(100).message(), "Upstream returned 100 Continue: why");
}

#[test]
fn description_of_an_upstream_answer() {
    assert_eq!(describe_upstream("418 Teapot", "short"), "Upstream returned 418 Teapot: short");
}

#[test]
fn start_up_errors() {
    assert_eq!(
        Error::Client("tls".to_string()).message(),
        "Failed to build HTTP client\nReqwest Error: tls"
    );
    let binding = Error::Binding {
        addr: "0.0.0.0:1".to_string(),
        e: "denied".to_string(),
    };
    assert_eq!(binding.message(), "Failed to bind 0.0.0.0:1: denied");
    assert_eq!(Error::Server("gone".to_string()).message(), "Server error: gone");
}

#[test]
fn configuration_errors() {
    assert_eq!(
        ConfigError::Io("missing".to_string()).message(),
        "Failed to read config file: missing"
    );
    assert_eq!(
        ConfigError::Parse("line 1".to_string()).message(),
        "Invalid config JSON: line 1"
    );
}
