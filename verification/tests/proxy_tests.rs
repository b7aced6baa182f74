use llm_gateway::config::{Config, OutputFormat, ProviderConfig, ServerConfig};
use llm_gateway::formats::{
    CanonicalChatResponse, CanonicalChoice, CanonicalMessage, FormatRegistry, FormattedResponse,
};
use llm_gateway::headers::RequestHeaders;
use llm_gateway::middleware::is_authorized;
use llm_gateway::proxy::{answer_to, model_entries, upstream_handling, Failure, ProxyState, Reply, UpstreamHandling};

fn config() -> Config {
    Config {
        server: ServerConfig { host: "127.0.0.1".to_string(), port: 0, api_key: Some("proxy-key".to_string()) },
        providers: vec![
            (
                "test".to_string(),
                ProviderConfig { base_url: "http://127.0.0.1:9/v1//".to_string(), api_key: "test-key".to_string(), input: None, output: OutputFormat::OpenAiCompatible },
            ),
            (
                "second".to_string(),
                ProviderConfig { base_url: "http://h/api".to_string(), api_key: "k2".to_string(), input: None, output: OutputFormat::Anthropic },
            ),
        ],
    }
}

fn headers(pairs: &[(&str, &str)]) -> RequestHeaders {
    let mut h = RequestHeaders::new();
    for (n, v) in pairs {
        h.append(n.to_string(), Some(v.to_string()));
    }
    h
}

#[test]
fn provider_by_name_or_first() {
    let state = ProxyState::new(config(), FormatRegistry::new());
    let (name, p) = state.get_provider(None).unwrap();
    assert_eq!(name, "test");
    assert_eq!(p.api_key, "test-key");
    let (name, p) = state.get_provider(Some("second")).unwrap();
    assert_eq!(name, "second");
    assert_eq!(p.output, OutputFormat::Anthropic);
    assert!(state.get_provider(Some("missing")).is_none());
    let empty = ProxyState::new(
        Config { server: ServerConfig { host: "h".to_string(), port: 1, api_key: Some("k".to_string()) }, providers: vec![] },
        FormatRegistry::new(),
    );
    assert!(empty.get_provider(None).is_none());
}

#[test]
fn upstream_plan_for_a_provider() {
    let state = ProxyState::new(config(), FormatRegistry::new());
    let h = headers(&[("content-type", "application/json"), ("x-request-id", "abc"), ("x-trace", "t"), ("authorization", "Bearer proxy-key")]);
    let plan = state.plan_upstream(None, Some(true), &h).ok().unwrap();
    assert_eq!(plan.provider_name, "test");
    assert_eq!(plan.url, "http://127.0.0.1:9/v1/chat/completions");
    assert_eq!(plan.authorization, "Bearer test-key");
    assert!(plan.streaming);
    assert_eq!(plan.forwarded_headers, vec![("x-request-id".to_string(), "abc".to_string()), ("x-trace".to_string(), "t".to_string())]);
    assert_eq!(plan.formatter_name, "openai");
    let plan = state.plan_upstream(Some("second"), None, &RequestHeaders::new()).ok().unwrap();
    assert_eq!(plan.url, "http://h/api/chat/completions");
    assert!(!plan.streaming);
    assert_eq!(plan.formatter_name, "anthropic");
    match state.plan_upstream(Some("nope"), None, &RequestHeaders::new()) {
        Err(e) => {
            assert_eq!(e.status, 400);
            assert_eq!(e.message, "No provider configured");
        }
        Ok(_) => panic!("expected an error"),
    }
}

#[test]
fn handling_by_status() {
    assert_eq!(upstream_handling(true, 200), UpstreamHandling::Stream);
    assert_eq!(upstream_handling(false, 200), UpstreamHandling::Convert);
    assert_eq!(upstream_handling(true, 500), UpstreamHandling::PassThrough(500));
    assert_eq!(upstream_handling(false, 404), UpstreamHandling::PassThrough(404));
    assert_eq!(upstream_handling(false, 42), UpstreamHandling::PassThrough(502));
}

#[test]
fn reply_formats_or_passes_through() {
    let state = ProxyState::new(config(), FormatRegistry::new());
    let c = CanonicalChatResponse {
        id: "test".to_string(),
        object: "chat.completion".to_string(),
        created: 0,
        model: "m".to_string(),
        choices: vec![CanonicalChoice {
            index: 0,
            message: CanonicalMessage { role: "assistant".to_string(), content: "OK".to_string(), name: None },
            finish_reason: None,
        }],
        usage: None,
    };
    match state.reply("anthropic", Some(&c)) {
        Reply::Formatted(FormattedResponse::Anthropic(r)) => assert_eq!(r.model, "m"),
        _ => panic!("expected an anthropic response"),
    }
    assert!(matches!(state.reply("anthropic", None), Reply::Raw));
    assert!(matches!(state.reply("gemini", Some(&c)), Reply::Raw));
}

#[test]
fn models_listed_per_provider() {
    let entries = model_entries(&config());
    assert_eq!(entries.len(), 2);
    assert_eq!(entries[0].id, "test/default");
    assert_eq!(entries[0].owned_by, "test");
    assert_eq!(entries[1].id, "second/default");
}

#[test]
fn api_key_check() {
    assert!(is_authorized(&headers(&[("authorization", "Bearer proxy-key")]), Some("proxy-key")));
    assert!(is_authorized(&headers(&[("authorization", "proxy-key")]), Some("proxy-key")));
    assert!(is_authorized(&headers(&[("authorization", "Bearer  proxy-key \t")]), Some("proxy-key")));
    assert!(!is_authorized(&headers(&[("authorization", "bearer proxy-key")]), Some("proxy-key")));
    assert!(!is_authorized(&headers(&[("authorization", "Bearer other")]), Some("proxy-key")));
    assert!(!is_authorized(&RequestHeaders::new(), Some("proxy-key")));
    assert!(!is_authorized(&headers(&[("x-api-key", "proxy-key")]), Some("proxy-key")));
    // Without a configured key the gateway is open.
    assert!(is_authorized(&RequestHeaders::new(), None));
    assert!(is_authorized(&headers(&[("authorization", "Bearer anything")]), None));
}

#[test]
fn ollama_output_provider_is_answered_in_ollama_format() {
    let config = Config {
        server: ServerConfig { host: "h".to_string(), port: 1, api_key: Some("k".to_string()) },
        providers: vec![(
            "local".to_string(),
            ProviderConfig { base_url: "http://localhost:11434/v1/".to_string(), api_key: "ollama-key".to_string(), input: None, output: OutputFormat::Ollama },
        )],
    };
    let state = ProxyState::new(config, FormatRegistry::new());
    let plan = state.plan_upstream(Some("local"), None, &RequestHeaders::new()).ok().unwrap();
    assert_eq!(plan.url, "http://localhost:11434/v1/chat/completions");
    assert_eq!(plan.formatter_name, "ollama");
    let c = CanonicalChatResponse {
        id: "i".to_string(),
        object: "chat.completion".to_string(),
        created: 0,
        model: "llama3.2".to_string(),
        choices: vec![],
        usage: None,
    };
    match state.reply(plan.formatter_name, Some(&c)) {
        Reply::Formatted(FormattedResponse::Ollama(r)) => {
            assert_eq!(r.model, "llama3.2");
            assert_eq!(r.response.as_deref(), Some(""));
            assert!(r.created_at.is_some());
        }
        _ => panic!("expected an Ollama response"),
    }
}

#[test]
fn failures_are_answered_with_status_type_and_message() {
    let cases: Vec<(Failure, u16, &str, &str)> = vec![
        (Failure::Unauthorized, 401, "authentication_error", "Invalid or missing API key"),
        (Failure::UnknownFormat, 400, "api_error", "Could not detect request format"),
        (Failure::InvalidBody("missing field `model`".to_string()), 400, "api_error", "Invalid request body: missing field `model`"),
        (Failure::NoProvider, 400, "api_error", "No provider configured"),
        (Failure::Unreachable("connection refused".to_string()), 502, "api_error", "Failed to connect to upstream: connection refused"),
        (Failure::UnreadableResponse, 502, "api_error", "Failed to read upstream response"),
        (Failure::Unencodable, 500, "api_error", "Failed to format response"),
        (Failure::NotFound, 404, "api_error", "Endpoint not found"),
    ];
    for (failure, status, error_type, message) in cases {
        let answer = answer_to(failure);
        assert_eq!(answer.status, status);
        assert_eq!(answer.error_type, error_type);
        assert_eq!(answer.message, message);
    }
}
