//! The protocol layer: a canonical chat format and the conversions between it and the
//! OpenAI, Anthropic and Ollama formats.
use vstd::prelude::*;

use crate::views::{opt_text, opt_texts, ChatResponseView, ChoiceView, MessageView, UsageView};

pub mod anthropic;
pub mod ollama;
pub mod openai;
use self::anthropic::AnthropicResponse;
use self::ollama::{ollama_response_of, OllamaResponse, OllamaResponseView};
use self::openai::OpenAIResponse;
use crate::views::{anthropic_of, AnthropicResponseView};

verus! {

// Canonical Types (Internal Format)
/// A chat request. Sampling parameters that the protocols carry as `f32` are held by their
/// IEEE-754 bit pattern (`f32::to_bits`).
pub struct CanonicalChatRequest {
    pub model: String,
    pub messages: Vec<CanonicalMessage>,
    pub temperature: Option<u32>,
    pub max_tokens: Option<u32>,
    pub stream: Option<bool>,
    pub top_p: Option<u32>,
    pub frequency_penalty: Option<u32>,
    pub presence_penalty: Option<u32>,
    pub stop: Option<Vec<String>>,
}

/// The content of a canonical chat request.
pub struct ChatRequestView {
    pub model: Seq<char>,
    pub messages: Seq<MessageView>,
    pub temperature: Option<u32>,
    pub max_tokens: Option<u32>,
    pub stream: Option<bool>,
    pub top_p: Option<u32>,
    pub frequency_penalty: Option<u32>,
    pub presence_penalty: Option<u32>,
    pub stop: Option<Seq<Seq<char>>>,
}

pub struct CanonicalMessage {
    pub role: String,
    pub content: String,
    pub name: Option<String>,
}

pub struct CanonicalChatResponse {
    pub id: String,
    pub object: String,
    pub created: i64,
    pub model: String,
    pub choices: Vec<CanonicalChoice>,
    pub usage: Option<CanonicalUsage>,
}

pub struct CanonicalChoice {
    pub index: u32,
    pub message: CanonicalMessage,
    pub finish_reason: Option<String>,
}

#[derive(Clone, Copy, Debug)]
pub struct CanonicalUsage {
    pub prompt_tokens: u32,
    pub completion_tokens: u32,
    pub total_tokens: u32,
}

// Format Enums
#[derive(Clone, Copy, Debug, PartialEq, Eq, Structural)]
pub enum InputFormat {
    OpenAI,
    Anthropic,
    Ollama,
}

#[derive(Clone, Copy, Debug, PartialEq, Eq, Structural)]
pub enum OutputFormat {
    OpenAI,
    Anthropic,
    Ollama,
}

impl View for CanonicalMessage {
    type V = MessageView;

    open spec fn view(&self) -> MessageView {
        MessageView { role: self.role@, content: self.content@, name: opt_text(self.name) }
    }
}

impl View for CanonicalChoice {
    type V = ChoiceView;

    open spec fn view(&self) -> ChoiceView {
        ChoiceView {
            index: self.index,
            message: self.message@,
            finish_reason: opt_text(self.finish_reason),
        }
    }
}

impl View for CanonicalChatResponse {
    type V = ChatResponseView;

    open spec fn view(&self) -> ChatResponseView {
        ChatResponseView {
            id: self.id@,
            object: self.object@,
            created: self.created,
            model: self.model@,
            choices: self.choices@.map_values(|c: CanonicalChoice| c@),
            usage: match self.usage {
                Some(u) => Some(
                    UsageView {
                        prompt_tokens: u.prompt_tokens,
                        completion_tokens: u.completion_tokens,
                        total_tokens: u.total_tokens,
                    },
                ),
                None => None,
            },
        }
    }
}

impl View for CanonicalChatRequest {
    type V = ChatRequestView;

    open spec fn view(&self) -> ChatRequestView {
        ChatRequestView {
            model: self.model@,
            messages: self.messages@.map_values(|m: CanonicalMessage| m@),
            temperature: self.temperature,
            max_tokens: self.max_tokens,
            stream: self.stream,
            top_p: self.top_p,
            frequency_penalty: self.frequency_penalty,
            presence_penalty: self.presence_penalty,
            stop: opt_texts(self.stop),
        }
    }
}

impl CanonicalMessage {
    /// An exact copy.
    pub fn duplicate(&self) -> (r: CanonicalMessage)
        ensures
            r@ == self@,
    {
        CanonicalMessage {
            role: self.role.clone(),
            content: self.content.clone(),
            name: crate::views::clone_opt_string(&self.name),
        }
    }
}

impl CanonicalChatResponse {
    /// An exact copy.
    pub fn duplicate(&self) -> (r: CanonicalChatResponse)
        ensures
            r@ == self@,
    {
        let mut choices: Vec<CanonicalChoice> = Vec::new();
        let mut i: usize = 0;
        while i < self.choices.len()
            invariant
                i <= self.choices.len(),
                choices@.len() == i,
                forall|j: int| 0 <= j < i ==> #[trigger] choices@[j]@ == self.choices@[j]@,
            decreases self.choices.len() - i,
        {
            let c = &self.choices[i];
            choices.push(
                CanonicalChoice {
                    index: c.index,
                    message: c.message.duplicate(),
                    finish_reason: crate::views::clone_opt_string(&c.finish_reason),
                },
            );
            i = i + 1;
        }
        let r = CanonicalChatResponse {
            id: self.id.clone(),
            object: self.object.clone(),
            created: self.created,
            model: self.model.clone(),
            choices,
            usage: self.usage,
        };
        assert(r@.choices =~= self@.choices);
        r
    }
}

/// A response in one of the output formats, ready to be encoded as JSON.
pub enum ProtocolResponse {
    OpenAI(OpenAIResponse),
    Anthropic(AnthropicResponse),
    Ollama(OllamaResponse),
}

/// The content of a protocol response.
pub enum ProtocolResponseView {
    OpenAI(ChatResponseView),
    Anthropic(AnthropicResponseView),
    Ollama(OllamaResponseView),
}

impl View for ProtocolResponse {
    type V = ProtocolResponseView;

    open spec fn view(&self) -> ProtocolResponseView {
        match self {
            ProtocolResponse::OpenAI(r) => ProtocolResponseView::OpenAI(r@),
            ProtocolResponse::Anthropic(r) => ProtocolResponseView::Anthropic(r@),
            ProtocolResponse::Ollama(r) => ProtocolResponseView::Ollama(r@),
        }
    }
}

/// The response that a canonical response becomes in an output format.
pub open spec fn response_in(format: OutputFormat, response: ChatResponseView) -> ProtocolResponseView {
    match format {
        OutputFormat::OpenAI => ProtocolResponseView::OpenAI(response),
        OutputFormat::Anthropic => ProtocolResponseView::Anthropic(anthropic_of(response)),
        OutputFormat::Ollama => ProtocolResponseView::Ollama(ollama_response_of(response)),
    }
}

/// Converts a canonical response to the given output format; encoding it as JSON is left to
/// the caller.
pub fn format_response(format: OutputFormat, response: &CanonicalChatResponse) -> (r: ProtocolResponse)
    ensures
        r@ == response_in(format, response@),
{
    match format {
        OutputFormat::OpenAI => ProtocolResponse::OpenAI(OpenAIResponse::from_canonical(response.duplicate())),
        OutputFormat::Anthropic => ProtocolResponse::Anthropic(AnthropicResponse::from_canonical(response.duplicate())),
        OutputFormat::Ollama => ProtocolResponse::Ollama(OllamaResponse::from_canonical(response)),
    }
}

} // verus!
