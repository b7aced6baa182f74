use llm_gateway::headers::RequestHeaders;
use llm_gateway::models::{
    AnthropicContent, AnthropicMessage, AnthropicRequest, OpenAIChatResponse, OpenAIChoice,
    OpenAIDelta, OpenAIMessage, OpenAIUsage, RequestSource,
};

fn headers(pairs: &[(&str, &str)]) -> RequestHeaders {
    let mut h = RequestHeaders::new();
    for (n, v) in pairs {
        h.append(n.to_string(), Some(v.to_string()));
    }
    h
}

#[test]
fn source_from_authorization_and_x_source() {
    assert_eq!(RequestSource::from_headers(&headers(&[("authorization", "key-anthropic-1")])), RequestSource::Anthropic);
    // the authorization check is case sensitive
    assert_eq!(RequestSource::from_headers(&headers(&[("authorization", "Anthropic")])), RequestSource::Unknown);
    assert_eq!(RequestSource::from_headers(&headers(&[("x-source", "OpenAI")])), RequestSource::OpenAI);
    assert_eq!(RequestSource::from_headers(&headers(&[("x-source", "ZAI")])), RequestSource::Zai);
    assert_eq!(RequestSource::from_headers(&headers(&[("x-source", "other")])), RequestSource::Unknown);
}

#[test]
fn source_from_agent_and_path() {
    assert_eq!(RequestSource::from_headers(&headers(&[("user-agent", "Anthropic-SDK")])), RequestSource::Anthropic);
    assert_eq!(RequestSource::from_headers(&headers(&[("user-agent", "OpenAI/Python")])), RequestSource::OpenAI);
    assert_eq!(RequestSource::from_headers(&headers(&[(":path", "/v1/chat/completions")])), RequestSource::OpenAI);
    assert_eq!(RequestSource::from_headers(&headers(&[(":path", "/anthropic/x")])), RequestSource::Anthropic);
    assert_eq!(RequestSource::from_headers(&RequestHeaders::new()), RequestSource::Unknown);
    // a value that is not text is not read
    let mut h = RequestHeaders::new();
    h.append("x-source".to_string(), None);
    assert_eq!(RequestSource::from_headers(&h), RequestSource::Unknown);
    // only the first header of a name counts
    let h = headers(&[("x-source", "zai"), ("x-source", "openai")]);
    assert_eq!(RequestSource::from_headers(&h), RequestSource::Zai);
}

#[test]
fn anthropic_to_openai_puts_system_first() {
    let req = AnthropicRequest {
        model: "opus-3".to_string(),
        messages: vec![
            AnthropicMessage { role: "user".to_string(), content: "Q".to_string() },
            AnthropicMessage { role: "tool".to_string(), content: "T".to_string() },
        ],
        max_tokens: Some(100),
        temperature: None,
        top_p: None,
        stream: None,
        system: Some("S".to_string()),
    };
    let o = req.to_openai();
    assert_eq!(o.model, "opus-3");
    assert_eq!(o.messages.len(), 3);
    assert_eq!(o.messages[0].role, "system");
    assert_eq!(o.messages[0].content, "S");
    assert_eq!(o.messages[2].role, "tool");
    assert!(o.messages.iter().all(|m| m.name.is_none()));
    assert_eq!(o.max_tokens, Some(100));
    assert_eq!(o.stop, None);
}

#[test]
fn openai_response_to_anthropic() {
    let resp = OpenAIChatResponse {
        id: "x".to_string(),
        object: "chat.completion".to_string(),
        created: 1,
        model: "m".to_string(),
        choices: vec![OpenAIChoice {
            index: 0,
            message: OpenAIMessage { role: "assistant".to_string(), content: "hi".to_string(), name: None },
            finish_reason: Some("stop".to_string()),
        }],
        usage: Some(OpenAIUsage { prompt_tokens: 3, completion_tokens: 4, total_tokens: 7 }),
    };
    let a = resp.to_anthropic();
    assert_eq!(a.id, "x");
    assert_eq!(a.response_type, "message");
    assert_eq!(a.role, "assistant");
    assert!(matches!(&a.content[0], AnthropicContent::Text { text } if text == "hi"));
    assert_eq!(a.stop_reason.as_deref(), Some("stop"));
    let u = a.usage.unwrap();
    assert_eq!((u.input_tokens, u.output_tokens), (3, 4));
}

#[test]
fn default_delta_is_empty() {
    let d = OpenAIDelta::default();
    assert!(d.role.is_none() && d.content.is_none());
}
