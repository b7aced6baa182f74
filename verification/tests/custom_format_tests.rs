//! A format supplied by the library's user, registered beside the built-in ones.

use llm_gateway::formats::{
    CanonicalChatRequest, CanonicalChatResponse, CanonicalChoice, CanonicalMessage, CustomFormatter,
    CustomInterpreter, FormatRegistry, FormattedResponse, Formatter, Interpreter, RequestInterpreter,
    ResponseFormatter,
};
use llm_gateway::headers::RequestHeaders;

struct GeminiInterpreter;

impl CustomInterpreter for GeminiInterpreter {
    fn format_name(&self) -> &'static str {
        "gemini"
    }

    fn takes(&self, headers: RequestHeaders, body: &[u8]) -> bool {
        self.can_interpret(&headers, body)
    }

    fn name(&self) -> &'static str {
        "gemini"
    }

    fn can_interpret(&self, _headers: &RequestHeaders, body: &[u8]) -> bool {
        serde_json::from_slice::<serde_json::Value>(body).map(|v| v.get("contents").is_some()).unwrap_or(false)
    }

    fn interpret(&self, body: &[u8]) -> Result<CanonicalChatRequest, String> {
        let v: serde_json::Value = serde_json::from_slice(body).map_err(|e| e.to_string())?;
        let text = v["contents"][0]["parts"][0]["text"].as_str().ok_or("no text")?.to_string();
        Ok(CanonicalChatRequest {
            model: v["model"].as_str().unwrap_or("").to_string(),
            messages: vec![CanonicalMessage { role: "user".to_string(), content: text, name: None }],
            temperature: None,
            max_tokens: None,
            stream: None,
            top_p: None,
            frequency_penalty: None,
            presence_penalty: None,
            stop: None,
            system: None,
            extra: vec![],
        })
    }
}

struct GeminiFormatter;

impl CustomFormatter for GeminiFormatter {
    fn format_name(&self) -> &'static str {
        "gemini"
    }

    fn encodes(&self, response: &CanonicalChatResponse, out: &Result<Vec<u8>, String>) -> bool {
        &self.format(response) == out
    }

    fn name(&self) -> &'static str {
        "gemini"
    }

    fn format(&self, response: &CanonicalChatResponse) -> Result<Vec<u8>, String> {
        let mut texts: Vec<String> = Vec::new();
        for c in &response.choices {
            match serde_json::to_string(&c.message.content) {
                Ok(t) => texts.push(format!("{{\"text\":{}}}", t)),
                Err(e) => return Err(e.to_string()),
            }
        }
        Ok(format!("{{\"candidates\":[{}]}}", texts.join(",")).into_bytes())
    }
}

static GEMINI_IN: GeminiInterpreter = GeminiInterpreter;
static GEMINI_OUT: GeminiFormatter = GeminiFormatter;

#[test]
fn custom_format_is_registered_detected_and_used() {
    let mut registry = FormatRegistry::new();
    registry.register_interpreter(Interpreter::Custom(&GEMINI_IN));
    registry.register_formatter(Formatter::Custom(&GEMINI_OUT));
    assert_eq!(registry.interpreter_count(), 4);
    assert_eq!(registry.formatter_names(), vec!["openai", "anthropic", "ollama", "gemini"]);

    let body = br#"{"model":"gemini-pro","contents":[{"parts":[{"text":"Hello"}]}]}"#;
    let detected = registry.detect_interpreter(&RequestHeaders::new(), body).unwrap();
    assert_eq!(detected.name(), "gemini");
    let request = match detected {
        Interpreter::Custom(c) => c.interpret(body).unwrap(),
        _ => panic!("expected the custom interpreter"),
    };
    assert_eq!(request.model, "gemini-pro");
    assert_eq!(request.messages[0].content, "Hello");

    let formatter = registry.get_formatter("gemini").unwrap();
    assert_eq!(formatter.name(), "gemini");
    let response = CanonicalChatResponse {
        id: "i".to_string(),
        object: "chat.completion".to_string(),
        created: 0,
        model: "gemini-pro".to_string(),
        choices: vec![CanonicalChoice {
            index: 0,
            message: CanonicalMessage { role: "assistant".to_string(), content: "Hi there".to_string(), name: None },
            finish_reason: None,
        }],
        usage: None,
    };
    match formatter.format(&response) {
        FormattedResponse::Encoded(Ok(bytes)) => {
            assert_eq!(String::from_utf8(bytes).unwrap(), r#"{"candidates":[{"text":"Hi there"}]}"#);
        }
        _ => panic!("expected the custom encoding"),
    }
}
