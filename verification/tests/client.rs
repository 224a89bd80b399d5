use xingdu::adapter::{BackendConfig, Protocol};
use xingdu::client::{
    backend_error, key_fits_header, map_backend_error, succeeded, words_of_backend, ClientError,
    HttpClient,
};
use xingdu::json::{parse, print};

fn backend(protocol: Protocol, api_key: &str) -> BackendConfig {
    BackendConfig {
        name: "kimi".to_string(),
        url: "https://api.kimi.com/coding/v1/messages".to_string(),
        protocol,
        api_key: api_key.to_string(),
        model: "kimi-v4".to_string(),
    }
}

#[test]
fn client_settings() {
    let client = HttpClient::new();
    assert_eq!(client.user_agent, "curl/8.5.0");
    assert_eq!(client.pool_max_idle_per_host, 20);
    assert_eq!(client.pool_idle_timeout_secs, 30);
    assert_eq!(client.timeout_secs, 120);
}

#[test]
fn openai_headers() {
    let headers = HttpClient::new().build_headers(&backend(Protocol::OpenAI, "sk-1"));
    assert_eq!(headers.len(), 2);
    assert_eq!(headers.get("content-type").unwrap(), "application/json");
    assert_eq!(headers.get("authorization").unwrap(), "Bearer sk-1");
    assert!(headers.get("x-api-key").is_none());
}

#[test]
fn anthropic_headers() {
    let headers = HttpClient::new().build_headers(&backend(Protocol::Anthropic, "sk-2"));
    assert_eq!(headers.len(), 3);
    assert_eq!(headers.get("content-type").unwrap(), "application/json");
    assert_eq!(headers.get("x-api-key").unwrap(), "sk-2");
    assert_eq!(headers.get("anthropic-version").unwrap(), "2023-06-01");
    assert!(headers.get("authorization").is_none());
}

#[test]
fn keys_that_fit_a_header() {
    for key in ["", "sk-abc", "with space", "tab\tbed", "~", "星渡", "\u{80}"] {
        assert!(reqwest::header::HeaderValue::from_str(key).is_ok(), "{key:?}");
        assert!(key_fits_header(&backend(Protocol::OpenAI, key)), "{key:?}");
        let headers = HttpClient::new().build_headers(&backend(Protocol::Anthropic, key));
        assert_eq!(headers.get("x-api-key").unwrap().as_bytes(), key.as_bytes());
    }
    for key in ["line\nfeed", "\r", "\u{0}", "bell\u{7}", "del\u{7f}"] {
        assert!(reqwest::header::HeaderValue::from_str(key).is_err(), "{key:?}");
        assert!(!key_fits_header(&backend(Protocol::OpenAI, key)), "{key:?}");
    }
}

#[test]
fn prepared_request() {
    let payload = parse("{\"model\": \"kimi-v4\", \"max_tokens\": 16}").ok().unwrap();
    let call = HttpClient::new().prepare_request(&backend(Protocol::Anthropic, "k"), &payload);
    assert_eq!(call.url, "https://api.kimi.com/coding/v1/messages");
    assert_eq!(call.headers.get("x-api-key").unwrap(), "k");
    assert_eq!(call.body, "{\"max_tokens\":16,\"model\":\"kimi-v4\"}");
}

#[test]
fn kinds_of_errors() {
    let kinds = [
        (400, "invalid_request_error"),
        (401, "authentication_error"),
        (403, "permission_error"),
        (404, "not_found_error"),
        (429, "rate_limit_error"),
        (500, "server_error"),
        (501, "api_error"),
        (502, "server_error"),
        (503, "server_error"),
        (504, "server_error"),
        (418, "api_error"),
    ];
    for (status, kind) in kinds {
        assert_eq!(map_backend_error(status, "x").0, kind);
    }
}

#[test]
fn messages_of_errors() {
    let nested = "{\"error\": {\"message\": \"bad key\", \"type\": \"x\"}}";
    assert_eq!(map_backend_error(401, nested).1, "bad key (HTTP 401)");
    assert_eq!(map_backend_error(500, "oops").1, "oops (HTTP 500)");
    assert_eq!(map_backend_error(500, "").1, " (HTTP 500)");
    let untold = "{\"error\": \"flat\"}";
    assert_eq!(map_backend_error(400, untold).1, "{\"error\": \"flat\"} (HTTP 400)");
    let number = "{\"error\": {\"message\": 7}}";
    assert_eq!(map_backend_error(400, number).1, "{\"error\": {\"message\": 7}} (HTTP 400)");
}

#[test]
fn words_from_a_document() {
    let doc = parse("{\"error\": {\"message\": \"m\"}}").ok().unwrap();
    assert_eq!(words_of_backend(Some(&doc), "body"), "m");
    assert_eq!(words_of_backend(None, "body"), "body");
    let other = parse("[]").ok().unwrap();
    assert_eq!(words_of_backend(Some(&other), "body"), "body");
}

#[test]
fn errors_in_the_form_of_openai() {
    let error = backend_error(429, "{\"error\": {\"message\": \"slow down\"}}");
    let text = error.message();
    assert_eq!(
        text,
        "{\"error\":{\"code\":429,\"message\":\"slow down (HTTP 429)\",\"type\":\"rate_limit_error\"}}"
    );
    let doc = parse(&text).ok().unwrap();
    let inner = doc.get("error").unwrap();
    assert_eq!(inner.get("message").unwrap().as_str(), Some("slow down (HTTP 429)"));
    assert_eq!(inner.get("type").unwrap().as_str(), Some("rate_limit_error"));
    assert_eq!(print(inner.get("code").unwrap()), "429");
}

#[test]
fn replies_of_backends() {
    let client = HttpClient::new();
    let doc = client.receive_response(200, "{\"id\": 1}").ok().unwrap();
    assert_eq!(print(&doc), "{\"id\":1}");
    assert!(client.receive_response(299, "null").is_ok());
    match client.receive_response(200, "no json") {
        Err(ClientError::Reply(words)) => assert_eq!(
            words,
            serde_json::from_str::<serde_json::Value>("no json").unwrap_err().to_string()
        ),
        _ => panic!("a reply that is no document"),
    }
    match client.receive_response(300, "{\"id\": 1}") {
        Err(ClientError::Backend(words)) => assert_eq!(
            words,
            "{\"error\":{\"code\":300,\"message\":\"{\\\"id\\\": 1} (HTTP 300)\",\"type\":\"api_error\"}}"
        ),
        _ => panic!("a status that is no success"),
    }
    assert!(client.receive_response(199, "null").is_err());
}

#[test]
fn success() {
    assert!(succeeded(200) && succeeded(204) && succeeded(299));
    assert!(!succeeded(199) && !succeeded(300) && !succeeded(500));
}
