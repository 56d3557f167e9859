use open_cowork::json::Json;
use open_cowork::providers::adapter::{ChatRequest, ProviderAdapter};
use open_cowork::providers::anthropic::AnthropicAdapter;
use open_cowork::providers::openai::OpenAIAdapter;
use open_cowork::providers::registry::{
    InMemorySecretStore, ProviderConfig, ProviderKind, SecretStore,
};

#[test]
fn secret_store_roundtrip() {
    let mut store = InMemorySecretStore::new();
    store.set_key("p1", "sk-test").unwrap();
    let got = store.get_key("p1").unwrap();
    assert_eq!(got, Some("sk-test".into()));
}

#[test]
fn secret_store_replaces_and_misses() {
    let mut store = InMemorySecretStore::new();
    assert_eq!(store.get_key("first").unwrap(), None);
    store.set_key("first", "one").unwrap();
    store.set_key("second", "two").unwrap();
    store.set_key("first", "three").unwrap();
    assert_eq!(store.get_key("first").unwrap(), Some("three".to_string()));
    assert_eq!(store.get_key("second").unwrap(), Some("two".to_string()));
    assert_eq!(store.get_key("third").unwrap(), None);
}

#[test]
fn build_request_contains_model() {
    let adapter = AnthropicAdapter;
    let value = adapter.build_request(&ChatRequest {
        model: "sonnet-test".into(),
        prompt: "hi".into(),
    });
    assert_eq!(
        value.get("model").and_then(Json::as_str),
        Some("sonnet-test")
    );
}

#[test]
fn build_request_contains_input() {
    let adapter = OpenAIAdapter;
    let value = adapter.build_request(&ChatRequest {
        model: "gpt-test".into(),
        prompt: "hi".into(),
    });
    assert_eq!(
        value
            .path(&["messages", "0", "role"])
            .and_then(Json::as_str),
        Some("user")
    );
}

#[test]
fn adapters_build_whole_bodies() {
    let req = ChatRequest {
        model: "m".into(),
        prompt: "hi".into(),
    };
    let message = Json::Object(vec![
        ("role".to_string(), Json::Str("user".to_string())),
        ("content".to_string(), Json::Str("hi".to_string())),
    ]);
    assert_eq!(
        AnthropicAdapter.build_request(&req),
        Json::Object(vec![
            ("model".to_string(), Json::Str("m".to_string())),
            ("messages".to_string(), Json::Array(vec![message.clone()])),
            ("max_tokens".to_string(), Json::Unsigned(1024)),
        ])
    );
    assert_eq!(
        OpenAIAdapter.build_request(&req),
        Json::Object(vec![
            ("model".to_string(), Json::Str("m".to_string())),
            ("messages".to_string(), Json::Array(vec![message])),
        ])
    );
}

#[test]
fn provider_kinds_have_wire_names() {
    assert_eq!(ProviderKind::Anthropic.as_str(), "anthropic");
    assert_eq!(ProviderKind::OpenAI.as_str(), "openai");
}

#[test]
fn provider_config_clones() {
    let config = ProviderConfig {
        id: "p".into(),
        kind: ProviderKind::OpenAI,
        base_url: Some("http://x".into()),
        default_model: "m".into(),
    };
    assert_eq!(config.clone(), config);
}
