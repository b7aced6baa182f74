//! The gateway's request path on the bodies that its integration scenarios send: detection,
//! conversion to the canonical request, the upstream plan, and the client's answer.

use llm_gateway::config::{Config, OutputFormat, ProviderConfig, ServerConfig};
use llm_gateway::formats::anthropic::{AnthropicMessage, AnthropicRequest};
use llm_gateway::formats::ollama::OllamaRequest;
use llm_gateway::formats::{
    CanonicalChatResponse, CanonicalChoice, CanonicalMessage, CanonicalUsage, FormatRegistry,
    FormattedResponse, Interpreter,
};
use llm_gateway::headers::RequestHeaders;
use llm_gateway::proxy::{upstream_handling, ProxyState, Reply, UpstreamHandling};

fn state(output: OutputFormat) -> ProxyState {
    state_with_input(None, output)
}

fn state_with_input(input: Option<&str>, output: OutputFormat) -> ProxyState {
    let config = Config {
        server: ServerConfig { host: "127.0.0.1".to_string(), port: 0, api_key: None },
        providers: vec![(
            "test".to_string(),
            ProviderConfig {
                base_url: "http://127.0.0.1:1234/v1".to_string(),
                api_key: "test-key".to_string(),
                input: input.map(str::to_string),
                output,
            },
        )],
    };
    ProxyState::new(config, FormatRegistry::new())
}

/// What the mock upstream answers: an OpenAI chat completion echoing the first message.
fn upstream_answer(first: &str) -> CanonicalChatResponse {
    CanonicalChatResponse {
        id: "chatcmpl-mock".to_string(),
        object: "chat.completion".to_string(),
        created: 1234567890,
        model: "mock".to_string(),
        choices: vec![CanonicalChoice {
            index: 0,
            message: CanonicalMessage { role: "assistant".to_string(), content: format!("received: {}", first), name: None },
            finish_reason: Some("stop".to_string()),
        }],
        usage: Some(CanonicalUsage { prompt_tokens: 10, completion_tokens: 5, total_tokens: 15 }),
    }
}

#[test]
fn scenario_anthropic_body_answered_in_openai_format() {
    let state = state(OutputFormat::OpenAiCompatible);
    let body = br#"{"model":"opus-3","messages":[{"role":"user","content":"Hello from Anthropic test!"}],"max_tokens":100,"system":"You are helpful."}"#;
    let headers = RequestHeaders::new();
    // max_tokens marks the Anthropic format
    let detected = state.choose_interpreter(None, &headers, body).unwrap();
    assert!(matches!(detected, Interpreter::Anthropic(_)));
    let request = AnthropicRequest {
        model: "opus-3".to_string(),
        messages: vec![AnthropicMessage { role: "user".to_string(), content: "Hello from Anthropic test!".to_string() }],
        max_tokens: Some(100),
        temperature: None,
        top_p: None,
        stream: None,
        system: Some("You are helpful.".to_string()),
    }
    .to_canonical();
    assert_eq!(request.max_tokens, Some(100));
    assert_eq!(request.messages[0].role, "system");
    let plan = state.plan_upstream(None, request.stream, &headers).ok().unwrap();
    assert_eq!(plan.url, "http://127.0.0.1:1234/v1/chat/completions");
    assert_eq!(upstream_handling(plan.streaming, 200), UpstreamHandling::Convert);
    let answer = upstream_answer(&request.messages[0].content);
    match state.reply(plan.formatter_name, Some(&answer)) {
        Reply::Formatted(FormattedResponse::OpenAI(r)) => {
            assert_eq!(r.choices.len(), 1);
            assert_eq!(r.choices[0].message.role, "assistant");
            assert!(r.usage.is_some());
        }
        _ => panic!("expected an OpenAI response"),
    }
}

#[test]
fn scenario_ollama_prompt_forwards_system_first() {
    let state = state(OutputFormat::OpenAiCompatible);
    let body = br#"{"model":"llama2","prompt":"Hello from test!","system":"You are helpful."}"#;
    let headers = RequestHeaders::new();
    assert!(matches!(state.format_registry.detect_interpreter(&headers, body), Some(Interpreter::Ollama(_))));
    let request = OllamaRequest {
        model: "llama2".to_string(),
        prompt: Some("Hello from test!".to_string()),
        messages: None,
        system: Some("You are helpful.".to_string()),
        template: None,
        context: None,
        stream: None,
        raw: None,
        format: None,
        options: None,
        extra: vec![],
    }
    .to_canonical();
    assert_eq!(request.messages[0].role, "system");
    assert_eq!(request.messages[1].content, "Hello from test!");
    let answer = upstream_answer(&request.messages[1].content);
    match state.reply("openai", Some(&answer)) {
        Reply::Formatted(FormattedResponse::OpenAI(r)) => {
            assert!(r.choices[0].message.content.contains("Hello from test!"));
        }
        _ => panic!("expected an OpenAI response"),
    }
}

#[test]
fn scenario_anthropic_output_provider() {
    let state = state(OutputFormat::Anthropic);
    let plan = state.plan_upstream(Some("test"), Some(false), &RequestHeaders::new()).ok().unwrap();
    assert_eq!(plan.formatter_name, "anthropic");
    match state.reply(plan.formatter_name, Some(&upstream_answer("Hi"))) {
        Reply::Formatted(FormattedResponse::Anthropic(r)) => {
            assert_eq!(r.response_type, "message");
            assert_eq!(r.stop_reason.as_deref(), Some("stop"));
        }
        _ => panic!("expected an Anthropic response"),
    }
}

#[test]
fn scenario_configured_anthropic_input_keeps_the_system_prompt() {
    // The provider is configured with input = "anthropic"; the body has no max_tokens.
    let state = state_with_input(Some("anthropic"), OutputFormat::OpenAiCompatible);
    let body = br#"{"model":"opus-3","messages":[{"role":"user","content":"Hi"}],"system":"Important system prompt"}"#;
    let headers = RequestHeaders::new();
    // Detection alone would take it for the OpenAI default ...
    assert!(matches!(state.format_registry.detect_interpreter(&headers, body), Some(Interpreter::OpenAI(_))));
    // ... but the provider's input format decides.
    assert!(matches!(state.choose_interpreter(None, &headers, body), Some(Interpreter::Anthropic(_))));
    assert!(matches!(state.choose_interpreter(Some("test"), &headers, body), Some(Interpreter::Anthropic(_))));
    let request = AnthropicRequest {
        model: "opus-3".to_string(),
        messages: vec![AnthropicMessage { role: "user".to_string(), content: "Hi".to_string() }],
        max_tokens: None,
        temperature: None,
        top_p: None,
        stream: None,
        system: Some("Important system prompt".to_string()),
    }
    .to_canonical();
    assert_eq!(request.messages.len(), 2);
    assert_eq!(request.messages[0].role, "system");
    assert_eq!(request.messages[0].content, "Important system prompt");
    assert_eq!(request.messages[1].role, "user");
    assert_eq!(request.messages[1].content, "Hi");
}

#[test]
fn scenario_unregistered_input_falls_back_to_detection() {
    let state = state_with_input(Some("gemini"), OutputFormat::OpenAiCompatible);
    let body = br#"{"model":"l","prompt":"p"}"#;
    assert!(matches!(state.choose_interpreter(None, &RequestHeaders::new(), body), Some(Interpreter::Ollama(_))));
}
