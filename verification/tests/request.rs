use axum::http::{HeaderMap, HeaderValue};
use llm_proxy::config::Config;
use llm_proxy::error::proxy::ProxyError;
use llm_proxy::proxy::request::{build_upstream_body, prepare_chat_completion, UpstreamRequest};
use serde_json::Value;

fn json(source: &str) -> Value {
    serde_json::from_str(source).unwrap()
}

fn rewritten(source: &str) -> String {
    build_upstream_body(json(source), "m").to_string()
}

fn config() -> Config {
    Config {
        upstream: "http://upstream/v1".to_string(),
        allowed_models: vec!["alpha".to_string(), "beta".to_string()],
        timeout: 7,
        port: 1,
    }
}

fn headers(token: &[u8]) -> HeaderMap {
    let mut headers = HeaderMap::new();
    headers.insert("authorization", HeaderValue::from_bytes(token).unwrap());
    headers
}

fn decide(token: &[u8], body: &str) -> Result<UpstreamRequest, ProxyError> {
    prepare_chat_completion(&config(), &headers(token), json(body))
}

fn refused_model(decision: Result<UpstreamRequest, ProxyError>) -> (String, Vec<String>) {
    match decision {
        Err(ProxyError::ModelNotAllowed { model, allowed }) => (model, allowed),
        _ => panic!("the model should be refused"),
    }
}

fn is_unauthorized(decision: Result<UpstreamRequest, ProxyError>) -> bool {
    matches!(decision, Err(ProxyError::Unauthorized))
}

#[test]
fn body_without_anything_optional() {
    assert_eq!(
        rewritten("{}"),
        "{\"enable_thinking\":false,\"messages\":[],\"model\":\"m\",\"stream\":true}"
    );
}

#[test]
fn body_forces_stream_and_thinking() {
    assert_eq!(
        rewritten("{\"stream\":false,\"enable_thinking\":true,\"model\":\"x\",\"messages\":[1]}"),
        "{\"enable_thinking\":false,\"messages\":[1],\"model\":\"m\",\"stream\":true}"
    );
}

#[test]
fn body_forwards_the_optional_parameters_unchanged() {
    let body = "{\"frequency_penalty\":-0.5,\"max_tokens\":10,\"presence_penalty\":2,\
                \"stop\":[\"a\",\"b\"],\"temperature\":0.7,\"top_p\":null}";
    assert_eq!(
        rewritten(body),
        "{\"enable_thinking\":false,\"frequency_penalty\":-0.5,\"max_tokens\":10,\"messages\":[],\
         \"model\":\"m\",\"presence_penalty\":2,\"stop\":[\"a\",\"b\"],\"stream\":true,\
         \"temperature\":0.7,\"top_p\":null}"
    );
}

#[test]
fn body_drops_everything_else() {
    assert_eq!(
        rewritten("{\"user\":\"u\",\"n\":3,\"tools\":[],\"stop\":\"s\"}"),
        rewritten("{\"stop\":\"s\"}")
    );
}

#[test]
fn body_keeps_messages_of_any_kind() {
    assert_eq!(
        rewritten("{\"messages\":{\"not\":\"a list\"}}"),
        "{\"enable_thinking\":false,\"messages\":{\"not\":\"a list\"},\"model\":\"m\",\"stream\":true}"
    );
}

#[test]
fn rewriting_twice_is_rewriting_once() {
    let once = build_upstream_body(json("{\"stop\":1,\"messages\":[2],\"x\":3}"), "m");
    assert_eq!(build_upstream_body(once.clone(), "m"), once);
}

#[test]
fn accepted_request_goes_upstream() {
    let body = "{\"model\":\"beta\",\"stream\":true,\"messages\":[\"hi\"],\"top_p\":1}";
    let request = decide(b"Bearer 12345678", body).unwrap();
    assert_eq!(request.url, "http://upstream/v1");
    assert_eq!(request.timeout, 7);
    assert_eq!(request.model, "beta");
    assert!(request.client_wants_stream);
    assert_eq!(
        request.payload,
        json("{\"model\":\"beta\",\"messages\":[\"hi\"],\"stream\":true,\"enable_thinking\":false,\"top_p\":1}")
    );
    assert_eq!(request.headers.len(), 2);
    assert_eq!(request.headers.get("Content-Type").unwrap(), "application/json");
    assert_eq!(request.headers.get("Authorization").unwrap(), "Bearer 12345678");
}

#[test]
fn only_true_asks_for_a_stream() {
    let wants = |body: &str| decide(b"Bearer 12345678", body).unwrap().client_wants_stream;
    assert!(wants("{\"model\":\"alpha\",\"stream\":true}"));
    assert!(!wants("{\"model\":\"alpha\",\"stream\":false}"));
    assert!(!wants("{\"model\":\"alpha\",\"stream\":\"true\"}"));
    assert!(!wants("{\"model\":\"alpha\",\"stream\":1}"));
    assert!(!wants("{\"model\":\"alpha\"}"));
}

#[test]
fn missing_model_is_refused() {
    let expected = ("(missing)".to_string(), vec!["alpha".to_string(), "beta".to_string()]);
    assert_eq!(refused_model(decide(b"Bearer 12345678", "{}")), expected);
    assert_eq!(refused_model(decide(b"Bearer 12345678", "{\"model\":5}")), expected);
    assert_eq!(refused_model(decide(b"Bearer 12345678", "[\"model\"]")), expected);
    assert_eq!(refused_model(decide(b"Bearer 12345678", "null")), expected);
}

#[test]
fn unknown_model_is_refused_before_the_credential_is_looked_at() {
    let expected = ("gamma".to_string(), vec!["alpha".to_string(), "beta".to_string()]);
    assert_eq!(refused_model(decide(b"", "{\"model\":\"gamma\"}")), expected);
    let (model, _) = refused_model(decide(b"Bearer 12345678", "{\"model\":\"Alpha\"}"));
    assert_eq!(model, "Alpha");
}

#[test]
fn credential_must_be_a_bearer_token_of_some_length() {
    let body = "{\"model\":\"alpha\"}";
    assert!(is_unauthorized(decide(b"Bearer 1234567", body)));
    assert!(decide(b"Bearer 12345678", body).is_ok());
    assert!(is_unauthorized(decide(b"bearer 12345678", body)));
    assert!(is_unauthorized(decide(b"Basic 1234567890", body)));
    assert!(is_unauthorized(decide(b"", body)));
    assert!(is_unauthorized(decide(b"Bearer 12345678\xff", body)));
    assert!(decide(b"Bearer \t2345678", body).is_ok());
}

#[test]
fn missing_credential_is_refused() {
    let decision = prepare_chat_completion(&config(), &HeaderMap::new(), json("{\"model\":\"alpha\"}"));
    assert!(is_unauthorized(decision));
}

#[test]
fn first_credential_counts() {
    let mut two = headers(b"Bearer first-token");
    two.append("Authorization", HeaderValue::from_static("Bearer second-token"));
    let request = prepare_chat_completion(&config(), &two, json("{\"model\":\"alpha\"}")).unwrap();
    assert_eq!(request.headers.get("authorization").unwrap(), "Bearer first-token");
}
