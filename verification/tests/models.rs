use axum::http::{HeaderMap, HeaderValue};
use llm_proxy::clock::{now, timestamp};
use llm_proxy::config::Config;
use llm_proxy::proxy::models::{handle_models, list_models};
use llm_proxy::proxy::request::prepare_chat_completion;
use serde_json::Value;

#[test]
fn list_in_full() {
    let models = vec!["a/b".to_string(), "c".to_string()];
    assert_eq!(
        list_models(&models, &vec![3, 4]).to_string(),
        "{\"data\":[{\"created\":3,\"id\":\"a/b\",\"object\":\"model\",\"owned_by\":\"llm-proxy\"},\
         {\"created\":4,\"id\":\"c\",\"object\":\"model\",\"owned_by\":\"llm-proxy\"}],\"object\":\"list\"}"
    );
    assert_eq!(
        list_models(&vec![], &vec![]).to_string(),
        "{\"data\":[],\"object\":\"list\"}"
    );
}

#[test]
fn every_listed_model_is_accepted() {
    let config = Config::default();
    let list = handle_models(&config);
    let entries = list.get("data").unwrap().as_array().unwrap();
    assert_eq!(entries.len(), 2);
    for entry in entries {
        let mut body = serde_json::Map::new();
        body.insert("model".to_string(), entry.get("id").unwrap().clone());
        let mut headers = HeaderMap::new();
        headers.insert("Authorization", HeaderValue::from_static("Bearer 0123456789"));
        assert!(prepare_chat_completion(&config, &headers, Value::Object(body)).is_ok());
        assert!(entry.get("created").unwrap().as_u64().unwrap() > 1_600_000_000);
    }
}

#[test]
fn timestamps() {
    assert_eq!(timestamp(Some((12, 999_999_999))), 12);
    assert_eq!(timestamp(None), 0);
    assert!(now() > 1_600_000_000);
}
