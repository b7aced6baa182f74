//! The OpenAI chat format.
use vstd::prelude::*;

use super::{CanonicalChatRequest, CanonicalChatResponse, CanonicalMessage, ChatRequestView};
use crate::views::{clone_opt_string, clone_opt_strings, opt_text, opt_texts, ChatResponseView, ChoiceView, MessageView, UsageView};

verus! {

pub struct OpenAIRequest {
    pub model: String,
    pub messages: Vec<OpenAIMessage>,
    /// Bit pattern of the `f32` temperature.
    pub temperature: Option<u32>,
    pub max_tokens: Option<u32>,
    pub stream: Option<bool>,
    /// Bit pattern of the `f32` nucleus-sampling mass.
    pub top_p: Option<u32>,
    /// Bit pattern of the `f32` frequency penalty.
    pub frequency_penalty: Option<u32>,
    /// Bit pattern of the `f32` presence penalty.
    pub presence_penalty: Option<u32>,
    pub stop: Option<Vec<String>>,
}

pub struct OpenAIMessage {
    pub role: String,
    pub content: String,
    pub name: Option<String>,
}

pub struct OpenAIResponse {
    pub id: String,
    pub object: String,
    pub created: i64,
    pub model: String,
    pub choices: Vec<OpenAIChoice>,
    pub usage: Option<OpenAIUsage>,
}

pub struct OpenAIChoice {
    pub index: u32,
    pub message: OpenAIMessage,
    pub finish_reason: Option<String>,
}

#[derive(Clone, Copy, Debug)]
pub struct OpenAIUsage {
    pub prompt_tokens: u32,
    pub completion_tokens: u32,
    pub total_tokens: u32,
}

impl View for OpenAIMessage {
    type V = MessageView;

    open spec fn view(&self) -> MessageView {
        MessageView { role: self.role@, content: self.content@, name: opt_text(self.name) }
    }
}

impl View for OpenAIChoice {
    type V = ChoiceView;

    open spec fn view(&self) -> ChoiceView {
        ChoiceView {
            index: self.index,
            message: self.message@,
            finish_reason: opt_text(self.finish_reason),
        }
    }
}

impl View for OpenAIResponse {
    type V = ChatResponseView;

    open spec fn view(&self) -> ChatResponseView {
        ChatResponseView {
            id: self.id@,
            object: self.object@,
            created: self.created,
            model: self.model@,
            choices: self.choices@.map_values(|c: OpenAIChoice| c@),
            usage: match self.usage {
                Some(u) => Some(
                    UsageView {
                        prompt_tokens: u.prompt_tokens,
                        completion_tokens: u.completion_tokens,
                        total_tokens: u.total_tokens,
                    },
                ),
                None => None,
            },
        }
    }
}

/// The canonical request that an OpenAI request stands for: the same fields.
pub open spec fn openai_request_canonical(r: OpenAIRequest) -> ChatRequestView {
    ChatRequestView {
        model: r.model@,
        messages: r.messages@.map_values(|m: OpenAIMessage| m@),
        temperature: r.temperature,
        max_tokens: r.max_tokens,
        stream: r.stream,
        top_p: r.top_p,
        frequency_penalty: r.frequency_penalty,
        presence_penalty: r.presence_penalty,
        stop: opt_texts(r.stop),
    }
}

impl OpenAIRequest {
    /// Converts to the canonical request, field by field.
    pub fn to_canonical(&self) -> (r: CanonicalChatRequest)
        ensures
            r@ == openai_request_canonical(*self),
    {
        let mut messages: Vec<CanonicalMessage> = Vec::new();
        let mut i: usize = 0;
        while i < self.messages.len()
            invariant
                i <= self.messages.len(),
                messages@.len() == i,
                forall|j: int| 0 <= j < i ==> #[trigger] messages@[j]@ == self.messages@[j]@,
            decreases self.messages.len() - i,
        {
            let m = &self.messages[i];
            messages.push(
                CanonicalMessage {
                    role: m.role.clone(),
                    content: m.content.clone(),
                    name: clone_opt_string(&m.name),
                },
            );
            i = i + 1;
        }
        let r = CanonicalChatRequest {
            model: self.model.clone(),
            messages,
            temperature: self.temperature,
            max_tokens: self.max_tokens,
            stream: self.stream,
            top_p: self.top_p,
            frequency_penalty: self.frequency_penalty,
            presence_penalty: self.presence_penalty,
            stop: clone_opt_strings(&self.stop),
        };
        assert(r@.messages =~= openai_request_canonical(*self).messages);
        r
    }
}

impl OpenAIResponse {
    /// The OpenAI response that carries a canonical response, field by field.
    pub fn from_canonical(c: CanonicalChatResponse) -> (r: OpenAIResponse)
        ensures
            r@ == c@,
    {
        let ghost source = c@;
        let CanonicalChatResponse { id, object, created, model, choices, usage } = c;
        let ghost input = choices@;
        let mut out: Vec<OpenAIChoice> = Vec::new();
        for ch in it: choices.into_iter()
            invariant
                it.seq() == input,
                out@.len() == it.index(),
                forall|j: int| 0 <= j < it.index() ==> #[trigger] out@[j]@ == input[j]@,
        {
            out.push(
                OpenAIChoice {
                    index: ch.index,
                    message: OpenAIMessage {
                        role: ch.message.role,
                        content: ch.message.content,
                        name: ch.message.name,
                    },
                    finish_reason: ch.finish_reason,
                },
            );
        }
        let usage = match usage {
            Some(u) => Some(
                OpenAIUsage {
                    prompt_tokens: u.prompt_tokens,
                    completion_tokens: u.completion_tokens,
                    total_tokens: u.total_tokens,
                },
            ),
            None => None,
        };
        let r = OpenAIResponse { id, object, created, model, choices: out, usage };
        assert(r@.choices =~= source.choices);
        r
    }
}

/// Converting an OpenAI request keeps every field: the model, each message's role, content
/// and name in order, and every sampling option.
pub proof fn law_openai_request_kept(r: OpenAIRequest)
    ensures
        ({
            let c = openai_request_canonical(r);
            &&& c.model == r.model@
            &&& c.messages.len() == r.messages@.len()
            &&& forall|k: int|
                0 <= k < r.messages@.len() ==> {
                    &&& (#[trigger] c.messages[k]).role == r.messages@[k].role@
                    &&& c.messages[k].content == r.messages@[k].content@
                    &&& c.messages[k].name == match r.messages@[k].name {
                        Some(n) => Some(n@),
                        None => None,
                    }
                }
            &&& c.temperature == r.temperature
            &&& c.max_tokens == r.max_tokens
            &&& c.stream == r.stream
            &&& c.top_p == r.top_p
            &&& c.frequency_penalty == r.frequency_penalty
            &&& c.presence_penalty == r.presence_penalty
            &&& c.stop == match r.stop {
                Some(v) => Some(v@.map_values(|s: String| s@)),
                None => None,
            }
        }),
{
    let c = openai_request_canonical(r);
    match r.stop {
        Some(v) => {
            assert(c.stop->0 =~= v@.map_values(|s: String| s@));
        },
        None => {},
    }
}

} // verus!
