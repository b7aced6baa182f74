use llm_gateway::config::Config;
use llm_gateway::formats::{OllamaInterpreter, OpenAIInterpreter, RequestInterpreter};
use llm_gateway::headers::RequestHeaders;
use llm_gateway::json::decimal_string;
use llm_gateway::middleware::is_authorized;
use llm_gateway::models::RequestSource;
use llm_gateway::text::{contains, ends_with, same_text, starts_with, trim_end_matches, trim_start_matches};

#[test]
fn matching_helpers() {
    assert!(contains("hello world", "o w"));
    assert!(contains("abc", ""));
    assert!(!contains("abc", "abcd"));
    assert!(starts_with("PROVIDER_X", "PROVIDER_"));
    assert!(!starts_with("PROV", "PROVIDER_"));
    assert!(ends_with("X_BASE_URL", "_BASE_URL"));
    assert!(same_text("é", "é"));
    assert!(!same_text("a", "b"));
}

#[test]
fn trimming_helpers() {
    assert_eq!(trim_start_matches("PROVIDER_PROVIDER_X", "PROVIDER_"), "X");
    assert_eq!(trim_end_matches("http://h///", "/"), "http://h");
    assert_eq!(trim_end_matches("abc", ""), "abc");
}

fn one_header(name: &str, value: &str) -> RequestHeaders {
    let mut h = RequestHeaders::new();
    h.append(name.to_string(), Some(value.to_string()));
    h
}

#[test]
fn unicode_trimming_and_casing_through_the_library() {
    // The bearer token is trimmed of Unicode white space, not only ASCII.
    assert!(is_authorized(&one_header("authorization", "Bearer \u{3000}k\n"), Some("k")));
    assert!(!is_authorized(&one_header("authorization", "Bearer x k"), Some("k")));
    // The x-source header is compared in lower case, with Unicode lower-casing.
    assert_eq!(RequestSource::from_headers(&one_header("x-source", "AnThRoPiC")), RequestSource::Anthropic);
    // The provider's API key variable is named with the upper-cased provider name.
    let vars: Vec<(String, String)> = [
        ("PROXY_API_KEY", "p"),
        ("PROVIDER_Mixed_BASE_URL", "http://m"),
        ("PROVIDER_MIXED_API_KEY", "km"),
    ]
    .iter()
    .map(|(k, v)| (k.to_string(), v.to_string()))
    .collect();
    let c = Config::from_env_vars(&vars).ok().unwrap();
    assert_eq!(c.providers.len(), 1);
    assert_eq!(c.providers[0].0, "mixed");
    assert_eq!(c.providers[0].1.api_key, "km");
}

#[test]
fn json_queries_and_decimals() {
    let none = RequestHeaders::new();
    // "images" is looked for in each message, by index.
    assert!(OllamaInterpreter.can_interpret(&none, br#"{"messages":[{"role":"user"},{"images":[]}]}"#));
    assert!(!OllamaInterpreter.can_interpret(&none, br#"{"messages":[{"role":"user"},{"image":[]}]}"#));
    // A member that is null is still present; a body that is no JSON has no members.
    assert!(OpenAIInterpreter.can_interpret(&none, br#"{"model":null,"messages":[]}"#));
    assert!(!OpenAIInterpreter.can_interpret(&none, br#"{"model":"m""#));
    assert!(!OpenAIInterpreter.can_interpret(&none, br#"{"model":"m","msgs":[]}"#));
    assert_eq!(decimal_string(0), "0");
    assert_eq!(decimal_string(907), "907");
}
