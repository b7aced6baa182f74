use llm_gateway::formats::anthropic::{AnthropicMessage, AnthropicRequest, AnthropicResponse};
use llm_gateway::formats::ollama::{unix_timestamp, OllamaMessage, OllamaOptions, OllamaRequest, OllamaResponse};
use llm_gateway::formats::openai::{OpenAIChatRequest, OpenAIChatResponse, OpenAIMessage};
use llm_gateway::formats::{
    AnthropicFormatter, AnthropicInterpreter, CanonicalChatResponse, CanonicalChoice,
    CanonicalMessage, CanonicalUsage, FormatRegistry, FormattedResponse, Formatter, Interpreter,
    OllamaFormatter, OllamaInterpreter, OpenAIFormatter, OpenAIInterpreter, RequestInterpreter,
    ResponseFormatter,
};
use llm_gateway::headers::RequestHeaders;
use llm_gateway::json::JsonValue;

fn headers(pairs: &[(&str, &str)]) -> RequestHeaders {
    let mut h = RequestHeaders::new();
    for (n, v) in pairs {
        h.append(n.to_string(), Some(v.to_string()));
    }
    h
}

fn sample_response() -> CanonicalChatResponse {
    CanonicalChatResponse {
        id: "chatcmpl-1".to_string(),
        object: "chat.completion".to_string(),
        created: 1234567890,
        model: "gpt-4".to_string(),
        choices: vec![
            CanonicalChoice {
                index: 0,
                message: CanonicalMessage {
                    role: "assistant".to_string(),
                    content: "Hello there".to_string(),
                    name: None,
                },
                finish_reason: Some("stop".to_string()),
            },
            CanonicalChoice {
                index: 1,
                message: CanonicalMessage {
                    role: "assistant".to_string(),
                    content: "Second".to_string(),
                    name: Some("bot".to_string()),
                },
                finish_reason: Some("length".to_string()),
            },
        ],
        usage: Some(CanonicalUsage { prompt_tokens: 10, completion_tokens: 5, total_tokens: 15 }),
    }
}

fn member<'a>(extra: &'a [(String, JsonValue)], key: &str) -> Option<&'a JsonValue> {
    extra.iter().rev().find(|(k, _)| k == key).map(|(_, v)| v)
}

#[test]
fn openai_request_converts_field_by_field() {
    let req = OpenAIChatRequest {
        model: "gpt-4".to_string(),
        messages: vec![
            OpenAIMessage { role: "system".to_string(), content: "Be brief".to_string(), name: None },
            OpenAIMessage { role: "user".to_string(), content: "Hi".to_string(), name: Some("ann".to_string()) },
        ],
        temperature: Some(0.7f32.to_bits()),
        max_tokens: Some(100),
        stream: Some(false),
        top_p: Some(0.9f32.to_bits()),
        frequency_penalty: Some(0.5f32.to_bits()),
        presence_penalty: None,
        stop: Some(vec!["END".to_string()]),
    };
    let c = req.to_canonical();
    assert_eq!(c.model, "gpt-4");
    assert_eq!(c.messages.len(), 2);
    assert_eq!(c.messages[1].role, "user");
    assert_eq!(c.messages[1].content, "Hi");
    assert_eq!(c.messages[1].name.as_deref(), Some("ann"));
    assert_eq!(c.temperature.map(f32::from_bits), Some(0.7f32));
    assert_eq!(c.max_tokens, Some(100));
    assert_eq!(c.top_p.map(f32::from_bits), Some(0.9f32));
    assert_eq!(c.frequency_penalty.map(f32::from_bits), Some(0.5f32));
    assert_eq!(c.presence_penalty, None);
    assert_eq!(c.stop, Some(vec!["END".to_string()]));
    assert_eq!(c.system, None);
    assert!(c.extra.is_empty());
}

#[test]
fn anthropic_system_prompt_becomes_first_message() {
    let req = AnthropicRequest {
        model: "opus-3".to_string(),
        messages: vec![AnthropicMessage { role: "user".to_string(), content: "Hi".to_string() }],
        max_tokens: Some(200),
        temperature: None,
        top_p: None,
        stream: None,
        system: Some("Important system prompt".to_string()),
    };
    let c = req.to_canonical();
    assert_eq!(c.messages.len(), 2);
    assert_eq!(c.messages[0].role, "system");
    assert_eq!(c.messages[0].content, "Important system prompt");
    assert_eq!(c.messages[0].name, None);
    assert_eq!(c.messages[1].role, "user");
    assert_eq!(c.messages[1].content, "Hi");
    assert_eq!(c.system.as_deref(), Some("Important system prompt"));
    assert_eq!(c.max_tokens, Some(200));
    assert_eq!(c.stop, None);
}

#[test]
fn anthropic_request_without_system_keeps_messages() {
    let req = AnthropicRequest {
        model: "haiku".to_string(),
        messages: vec![
            AnthropicMessage { role: "user".to_string(), content: "a".to_string() },
            AnthropicMessage { role: "assistant".to_string(), content: "b".to_string() },
        ],
        max_tokens: None,
        temperature: Some(1.0f32.to_bits()),
        top_p: None,
        stream: Some(true),
        system: None,
    };
    let c = req.to_canonical();
    assert_eq!(c.messages.len(), 2);
    assert_eq!(c.messages[0].content, "a");
    assert_eq!(c.messages[1].role, "assistant");
    assert_eq!(c.stream, Some(true));
    assert_eq!(c.temperature, Some(1.0f32.to_bits()));
}

fn ollama_request() -> OllamaRequest {
    OllamaRequest {
        model: "llama2".to_string(),
        prompt: None,
        messages: None,
        system: None,
        template: None,
        context: None,
        stream: None,
        raw: None,
        format: None,
        options: None,
        extra: vec![],
    }
}

#[test]
fn ollama_prompt_and_system_become_messages() {
    let mut req = ollama_request();
    req.prompt = Some("Hello from test!".to_string());
    req.system = Some("You are helpful.".to_string());
    let c = req.to_canonical();
    assert_eq!(c.messages.len(), 2);
    assert_eq!(c.messages[0].role, "system");
    assert_eq!(c.messages[0].content, "You are helpful.");
    assert_eq!(c.messages[1].role, "user");
    assert_eq!(c.messages[1].content, "Hello from test!");
    assert_eq!(c.system.as_deref(), Some("You are helpful."));
}

#[test]
fn ollama_messages_win_over_prompt_and_images_go_to_extra() {
    let mut req = ollama_request();
    req.prompt = Some("ignored".to_string());
    req.template = Some("T".to_string());
    req.raw = Some(true);
    req.format = Some("json".to_string());
    req.context = Some(JsonValue::Array(vec![JsonValue::Number("1".to_string())]));
    req.extra = vec![("keep_alive".to_string(), JsonValue::String("5m".to_string()))];
    req.messages = Some(vec![
        OllamaMessage { role: "user".to_string(), content: "look".to_string(), images: Some(vec!["aaa".to_string()]) },
        OllamaMessage { role: "user".to_string(), content: "again".to_string(), images: Some(vec!["bbb".to_string(), "ccc".to_string()]) },
    ]);
    req.options = Some(OllamaOptions {
        temperature: Some(0.2f32.to_bits()),
        top_p: Some(0.8f32.to_bits()),
        num_predict: Some(-1),
        seed: Some(7),
        extra: vec![],
    });
    let c = req.to_canonical();
    assert_eq!(c.messages.len(), 2);
    assert_eq!(c.messages[0].content, "look");
    assert_eq!(c.messages[1].content, "again");
    assert_eq!(c.max_tokens, Some(u32::MAX));
    assert_eq!(c.temperature, Some(0.2f32.to_bits()));
    assert_eq!(c.top_p, Some(0.8f32.to_bits()));
    match member(&c.extra, "template") {
        Some(JsonValue::String(t)) => assert_eq!(t, "T"),
        _ => panic!("template missing"),
    }
    assert!(matches!(member(&c.extra, "raw"), Some(JsonValue::Bool(true))));
    match member(&c.extra, "format") {
        Some(JsonValue::String(f)) => assert_eq!(f, "json"),
        _ => panic!("format missing"),
    }
    assert!(matches!(member(&c.extra, "context"), Some(JsonValue::Array(v)) if v.len() == 1));
    assert!(matches!(member(&c.extra, "keep_alive"), Some(JsonValue::String(s)) if s == "5m"));
    // the last message's images are the ones that stand
    match member(&c.extra, "images") {
        Some(JsonValue::Array(items)) => {
            assert_eq!(items.len(), 2);
            assert!(matches!(&items[0], JsonValue::String(s) if s == "bbb"));
            assert!(matches!(&items[1], JsonValue::String(s) if s == "ccc"));
        }
        _ => panic!("images missing"),
    }
}

#[test]
fn ollama_request_without_prompt_or_messages_has_only_system() {
    let mut req = ollama_request();
    req.system = Some("sys".to_string());
    let c = req.to_canonical();
    assert_eq!(c.messages.len(), 1);
    assert_eq!(c.messages[0].role, "system");
    assert_eq!(c.max_tokens, None);
}

#[test]
fn openai_response_keeps_every_field() {
    let r = OpenAIChatResponse::from_canonical(sample_response());
    assert_eq!(r.id, "chatcmpl-1");
    assert_eq!(r.object, "chat.completion");
    assert_eq!(r.created, 1234567890);
    assert_eq!(r.choices.len(), 2);
    assert_eq!(r.choices[1].index, 1);
    assert_eq!(r.choices[1].message.name.as_deref(), Some("bot"));
    assert_eq!(r.choices[1].finish_reason.as_deref(), Some("length"));
    let u = r.usage.unwrap();
    assert_eq!((u.prompt_tokens, u.completion_tokens, u.total_tokens), (10, 5, 15));
}

#[test]
fn anthropic_response_has_one_block_per_choice() {
    let r = AnthropicResponse::from_canonical(sample_response());
    assert_eq!(r.response_type, "message");
    assert_eq!(r.role, "assistant");
    assert_eq!(r.content.len(), 2);
    let texts: Vec<String> = r
        .content
        .iter()
        .map(|b| match b {
            llm_gateway::formats::anthropic::AnthropicContent::Text { text } => text.clone(),
        })
        .collect();
    assert_eq!(texts, vec!["Hello there".to_string(), "Second".to_string()]);
    assert_eq!(r.stop_reason.as_deref(), Some("stop"));
    let u = r.usage.unwrap();
    assert_eq!((u.input_tokens, u.output_tokens), (10, 5));
}

#[test]
fn anthropic_response_without_choices_has_no_stop_reason() {
    let mut c = sample_response();
    c.choices.clear();
    c.usage = None;
    let r = AnthropicResponse::from_canonical(c);
    assert!(r.content.is_empty());
    assert_eq!(r.stop_reason, None);
    assert!(r.usage.is_none());
}

#[test]
fn ollama_response_takes_first_choice() {
    let r = OllamaResponse::from_canonical_at(&sample_response(), Some("2024-01-01T00:00:00+00:00".to_string()));
    assert_eq!(r.model, "gpt-4");
    assert_eq!(r.created_at.as_deref(), Some("2024-01-01T00:00:00+00:00"));
    assert_eq!(r.response.as_deref(), Some("Hello there"));
    let m = r.message.unwrap();
    assert_eq!(m.role, "assistant");
    assert_eq!(m.content, "Hello there");
    assert!(r.done);
    assert_eq!(r.prompt_eval_count, Some(10));
    assert_eq!(r.eval_count, Some(5));
    assert_eq!(r.total_duration, None);
    assert!(r.extra.is_empty());
}

#[test]
fn ollama_response_is_stamped_with_the_time() {
    let mut c = sample_response();
    c.choices.clear();
    let r = OllamaResponse::from_canonical(&c);
    let stamp = r.created_at.unwrap();
    assert!(stamp.starts_with("20"));
    assert_eq!(r.response.as_deref(), Some(""));
}

#[test]
fn interpreters_recognise_their_bodies() {
    let none = RequestHeaders::new();
    let openai_body = br#"{"model":"gpt-4","messages":[{"role":"user","content":"hi"}]}"#;
    let anthropic_body = br#"{"model":"c","messages":[],"max_tokens":10}"#;
    let ollama_prompt = br#"{"model":"llama2","prompt":"hi"}"#;
    let ollama_images = br#"{"model":"llava","messages":[{"role":"user","content":"x"},{"role":"user","content":"y","images":["abc"]}]}"#;
    assert!(OpenAIInterpreter.can_interpret(&none, openai_body));
    assert!(!OpenAIInterpreter.can_interpret(&none, ollama_prompt));
    assert!(!OpenAIInterpreter.can_interpret(&none, b"not json"));
    assert!(AnthropicInterpreter.can_interpret(&none, anthropic_body));
    assert!(!AnthropicInterpreter.can_interpret(&none, openai_body));
    assert!(AnthropicInterpreter.can_interpret(&headers(&[("authorization", "Bearer Anthropic-key")]), b"{}"));
    assert!(OllamaInterpreter.can_interpret(&none, ollama_prompt));
    assert!(OllamaInterpreter.can_interpret(&none, ollama_images));
    assert!(!OllamaInterpreter.can_interpret(&none, openai_body));
    assert!(!OllamaInterpreter.can_interpret(&none, br#"{"messages":{"0":{"images":[]}}}"#));
    assert_eq!(OpenAIInterpreter.name(), "openai");
    assert_eq!(AnthropicInterpreter.name(), "anthropic");
    assert_eq!(OllamaInterpreter.name(), "ollama");
}

#[test]
fn registry_holds_the_builtin_formats() {
    let reg = FormatRegistry::new();
    assert_eq!(reg.interpreter_count(), 3);
    assert_eq!(reg.formatter_count(), 3);
    assert_eq!(reg.interpreter_names(), vec!["openai", "anthropic", "ollama"]);
    assert_eq!(reg.formatter_names(), vec!["openai", "anthropic", "ollama"]);
    assert!(matches!(reg.get_formatter("anthropic"), Some(Formatter::Anthropic(_))));
    assert!(reg.get_formatter("gemini").is_none());
    let d = FormatRegistry::default();
    assert_eq!(d.interpreter_count(), 3);
}

#[test]
fn registering_again_under_a_name_replaces() {
    let mut reg = FormatRegistry::new();
    reg.register_formatter(Formatter::OpenAI(OpenAIFormatter));
    reg.register_interpreter(Interpreter::Ollama(OllamaInterpreter));
    assert_eq!(reg.formatter_count(), 3);
    assert_eq!(reg.interpreter_count(), 3);
    assert!(matches!(reg.get_formatter("openai"), Some(Formatter::OpenAI(_))));
    assert!(matches!(reg.get_interpreter("ollama"), Some(Interpreter::Ollama(_))));
}

#[test]
fn detection_prefers_x_source_then_agent_then_body() {
    let reg = FormatRegistry::new();
    let both = br#"{"model":"m","messages":[],"max_tokens":5}"#;
    // x-source names anthropic, which takes the body
    let h = headers(&[("x-source", "Anthropic")]);
    assert!(matches!(reg.detect_interpreter(&h, both), Some(Interpreter::Anthropic(_))));
    // user agent mentions anthropic
    let h = headers(&[("user-agent", "my-ANTHROPIC-client/1.0")]);
    assert!(matches!(reg.detect_interpreter(&h, both), Some(Interpreter::Anthropic(_))));
    // no hint: max_tokens marks the Anthropic format, tried before the OpenAI default
    let none = RequestHeaders::new();
    assert!(matches!(reg.detect_interpreter(&none, both), Some(Interpreter::Anthropic(_))));
    // x-source names one that does not take the body: fall through
    let h = headers(&[("x-source", "ollama")]);
    assert!(matches!(reg.detect_interpreter(&h, both), Some(Interpreter::Anthropic(_))));
    // a plain OpenAI body
    let plain = br#"{"model":"m","messages":[{"role":"user","content":"hi"}]}"#;
    assert!(matches!(reg.detect_interpreter(&none, plain), Some(Interpreter::OpenAI(_))));
    // x-source names openai, which takes the body
    let h = headers(&[("x-source", "OPENAI")]);
    assert!(matches!(reg.detect_interpreter(&h, both), Some(Interpreter::OpenAI(_))));
    // an ollama prompt body
    assert!(matches!(reg.detect_interpreter(&none, br#"{"model":"l","prompt":"p"}"#), Some(Interpreter::Ollama(_))));
    // nothing takes it: default to openai
    assert!(matches!(reg.detect_interpreter(&none, b"garbage"), Some(Interpreter::OpenAI(_))));
}

#[test]
fn formatters_dispatch_on_format() {
    match OpenAIFormatter.format(&sample_response()) {
        FormattedResponse::OpenAI(r) => assert_eq!(r.choices.len(), 2),
        _ => panic!("wrong format"),
    }
    match AnthropicFormatter.format(&sample_response()) {
        FormattedResponse::Anthropic(r) => assert_eq!(r.content.len(), 2),
        _ => panic!("wrong format"),
    }
    match OllamaFormatter.format(&sample_response()) {
        FormattedResponse::Ollama(r) => assert_eq!(r.response.as_deref(), Some("Hello there")),
        _ => panic!("wrong format"),
    }
    assert_eq!(Formatter::Ollama(OllamaFormatter).name(), "ollama");
}

#[test]
fn clock_readings_become_unix_timestamps() {
    assert_eq!(unix_timestamp(true, 1_700_000_000, 5), Some((1_700_000_000, 5)));
    // Before the epoch: whole seconds back, or one more second back and the complement.
    assert_eq!(unix_timestamp(false, 5, 0), Some((-5, 0)));
    assert_eq!(unix_timestamp(false, 5, 1), Some((-6, 999_999_999)));
    // Seconds beyond an i64 have no timestamp.
    assert_eq!(unix_timestamp(true, u64::MAX, 0), None);
    assert_eq!(unix_timestamp(false, i64::MAX as u64, 1), None);
    assert_eq!(unix_timestamp(false, i64::MAX as u64, 0), Some((-i64::MAX, 0)));
}
