use llm_gateway::protocols::anthropic::{AnthropicContent, AnthropicMessage, AnthropicRequest};
use llm_gateway::protocols::ollama::{OllamaMessage, OllamaOptions, OllamaRequest};
use llm_gateway::protocols::openai::{OpenAIMessage, OpenAIRequest};
use llm_gateway::protocols::{
    format_response, CanonicalChatResponse, CanonicalChoice, CanonicalMessage, CanonicalUsage,
    InputFormat, OutputFormat, ProtocolResponse,
};

fn response() -> CanonicalChatResponse {
    CanonicalChatResponse {
        id: "r1".to_string(),
        object: "chat.completion".to_string(),
        created: 42,
        model: "llama2".to_string(),
        choices: vec![CanonicalChoice {
            index: 0,
            message: CanonicalMessage { role: "assistant".to_string(), content: "Ollama received: Hello".to_string(), name: None },
            finish_reason: Some("stop".to_string()),
        }],
        usage: Some(CanonicalUsage { prompt_tokens: 10, completion_tokens: 5, total_tokens: 15 }),
    }
}

#[test]
fn protocol_openai_request_is_copied() {
    let req = OpenAIRequest {
        model: "m".to_string(),
        messages: vec![OpenAIMessage { role: "user".to_string(), content: "x".to_string(), name: Some("n".to_string()) }],
        temperature: None,
        max_tokens: Some(3),
        stream: None,
        top_p: None,
        frequency_penalty: None,
        presence_penalty: Some(0.25f32.to_bits()),
        stop: None,
    };
    let c = req.to_canonical();
    assert_eq!(c.messages.len(), 1);
    assert_eq!(c.messages[0].name.as_deref(), Some("n"));
    assert_eq!(c.max_tokens, Some(3));
    assert_eq!(c.presence_penalty, Some(0.25f32.to_bits()));
    // the request itself is left as it was
    assert_eq!(req.messages.len(), 1);
}

#[test]
fn protocol_anthropic_system_goes_first() {
    let req = AnthropicRequest {
        model: "m".to_string(),
        messages: vec![AnthropicMessage { role: "user".to_string(), content: "Hello from test".to_string() }],
        max_tokens: Some(100),
        temperature: None,
        top_p: None,
        stream: None,
        system: Some("You are helpful.".to_string()),
    };
    let c = req.to_canonical();
    assert_eq!(c.messages.len(), 2);
    assert_eq!(c.messages[0].role, "system");
    assert_eq!(c.messages[0].content, "You are helpful.");
    assert_eq!(c.messages[1].content, "Hello from test");
    assert_eq!(c.max_tokens, Some(100));
}

#[test]
fn protocol_ollama_chat_and_prompt() {
    let chat = OllamaRequest {
        model: "llama2".to_string(),
        prompt: None,
        messages: Some(vec![
            OllamaMessage { role: "system".to_string(), content: "You are helpful.".to_string() },
            OllamaMessage { role: "user".to_string(), content: "Test message".to_string() },
        ]),
        system: None,
        stream: Some(false),
        options: Some(OllamaOptions { temperature: None, top_p: None, num_predict: Some(64) }),
    };
    let c = chat.to_canonical();
    assert_eq!(c.messages.len(), 2);
    assert_eq!(c.messages[0].role, "system");
    assert_eq!(c.messages[1].content, "Test message");
    assert_eq!(c.max_tokens, Some(64));
    let prompt = OllamaRequest {
        model: "llama2".to_string(),
        prompt: Some("Hello".to_string()),
        messages: None,
        system: Some("Important system prompt".to_string()),
        stream: None,
        options: None,
    };
    let c = prompt.to_canonical();
    assert_eq!(c.messages.len(), 2);
    assert_eq!(c.messages[0].role, "system");
    assert_eq!(c.messages[0].content, "Important system prompt");
    assert_eq!(c.messages[1].role, "user");
    assert_eq!(c.messages[1].content, "Hello");
}

#[test]
fn protocol_format_response_per_format() {
    match format_response(OutputFormat::OpenAI, &response()) {
        ProtocolResponse::OpenAI(r) => {
            assert_eq!(r.choices[0].message.role, "assistant");
            assert_eq!(r.usage.unwrap().total_tokens, 15);
        }
        _ => panic!("wrong format"),
    }
    match format_response(OutputFormat::Anthropic, &response()) {
        ProtocolResponse::Anthropic(r) => {
            assert!(matches!(&r.content[0], AnthropicContent::Text { text } if text == "Ollama received: Hello"));
            assert_eq!(r.usage.unwrap().output_tokens, 5);
        }
        _ => panic!("wrong format"),
    }
    match format_response(OutputFormat::Ollama, &response()) {
        ProtocolResponse::Ollama(r) => {
            assert_eq!(r.response.as_deref(), Some("Ollama received: Hello"));
            assert!(r.done);
        }
        _ => panic!("wrong format"),
    }
    assert!(InputFormat::Ollama != InputFormat::OpenAI);
}
