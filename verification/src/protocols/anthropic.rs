//! The Anthropic messages format.
use vstd::prelude::*;

use super::{CanonicalChatRequest, CanonicalChatResponse, CanonicalMessage, ChatRequestView};
use crate::formats::anthropic::system_prefix;
use crate::text::owned;
use crate::views::{anthropic_of, clone_opt_string, opt_text, AnthropicResponseView, MessageView};

verus! {

pub struct AnthropicRequest {
    pub model: String,
    pub messages: Vec<AnthropicMessage>,
    pub max_tokens: Option<u32>,
    /// Bit pattern of the `f32` temperature.
    pub temperature: Option<u32>,
    /// Bit pattern of the `f32` nucleus-sampling mass.
    pub top_p: Option<u32>,
    pub stream: Option<bool>,
    pub system: Option<String>,
}

pub struct AnthropicMessage {
    pub role: String,
    pub content: String,
}

pub struct AnthropicResponse {
    pub id: String,
    pub response_type: String,
    pub role: String,
    pub content: Vec<AnthropicContent>,
    pub model: String,
    pub stop_reason: Option<String>,
    pub usage: Option<AnthropicUsage>,
}

pub enum AnthropicContent {
    Text { text: String },
}

#[derive(Clone, Copy, Debug)]
pub struct AnthropicUsage {
    pub input_tokens: u32,
    pub output_tokens: u32,
}

impl View for AnthropicMessage {
    type V = MessageView;

    /// Anthropic messages carry no speaker name.
    open spec fn view(&self) -> MessageView {
        MessageView { role: self.role@, content: self.content@, name: None }
    }
}

impl AnthropicContent {
    /// The text of a content block.
    pub open spec fn text_of(self) -> Seq<char> {
        match self {
            AnthropicContent::Text { text } => text@,
        }
    }
}

impl View for AnthropicResponse {
    type V = AnthropicResponseView;

    open spec fn view(&self) -> AnthropicResponseView {
        AnthropicResponseView {
            id: self.id@,
            response_type: self.response_type@,
            role: self.role@,
            content: self.content@.map_values(|b: AnthropicContent| b.text_of()),
            model: self.model@,
            stop_reason: opt_text(self.stop_reason),
            usage: match self.usage {
                Some(u) => Some((u.input_tokens, u.output_tokens)),
                None => None,
            },
        }
    }
}

/// The canonical request that an Anthropic request stands for: the system prompt, if any,
/// as a first "system" message before the request's messages.
pub open spec fn anthropic_request_canonical(r: AnthropicRequest) -> ChatRequestView {
    ChatRequestView {
        model: r.model@,
        messages: system_prefix(opt_text(r.system)) + r.messages@.map_values(
            |m: AnthropicMessage| m@,
        ),
        temperature: r.temperature,
        max_tokens: r.max_tokens,
        stream: r.stream,
        top_p: r.top_p,
        frequency_penalty: None,
        presence_penalty: None,
        stop: None,
    }
}

impl AnthropicRequest {
    /// Converts to the canonical request.
    pub fn to_canonical(&self) -> (r: CanonicalChatRequest)
        ensures
            r@ == anthropic_request_canonical(*self),
    {
        let mut messages: Vec<CanonicalMessage> = Vec::new();
        let mut i: usize = 0;
        while i < self.messages.len()
            invariant
                i <= self.messages.len(),
                messages@.len() == i,
                forall|j: int| 0 <= j < i ==> #[trigger] messages@[j]@ == self.messages@[j]@,
            decreases self.messages.len() - i,
        {
            let m = &self.messages[i];
            messages.push(
                CanonicalMessage { role: m.role.clone(), content: m.content.clone(), name: None },
            );
            i = i + 1;
        }
        let ghost mapped = messages@;
        if let Some(system) = &self.system {
            messages.insert(
                0,
                CanonicalMessage { role: owned("system"), content: system.clone(), name: None },
            );
            proof {
                reveal_strlit("system");
            }
        }
        let r = CanonicalChatRequest {
            model: self.model.clone(),
            messages,
            temperature: self.temperature,
            max_tokens: self.max_tokens,
            stream: self.stream,
            top_p: self.top_p,
            frequency_penalty: None,
            presence_penalty: None,
            stop: None,
        };
        proof {
            assert(mapped.map_values(|m: CanonicalMessage| m@) =~= self.messages@.map_values(
                |m: AnthropicMessage| m@,
            ));
            assert(r@.messages =~= anthropic_request_canonical(*self).messages);
        }
        r
    }
}

impl AnthropicResponse {
    /// The Anthropic response for a canonical response: one text block per choice, the first
    /// choice's finish reason as the stop reason, prompt and completion tokens as input and
    /// output tokens.
    pub fn from_canonical(c: CanonicalChatResponse) -> (r: AnthropicResponse)
        ensures
            r@ == anthropic_of(c@),
    {
        let ghost source = c@;
        let mut content: Vec<AnthropicContent> = Vec::new();
        let mut i: usize = 0;
        while i < c.choices.len()
            invariant
                i <= c.choices.len(),
                source == c@,
                content@.len() == i,
                forall|j: int| 0 <= j < i ==> #[trigger] content@[j].text_of() == source.choices[j].message.content,
            decreases c.choices.len() - i,
        {
            content.push(AnthropicContent::Text { text: c.choices[i].message.content.clone() });
            i = i + 1;
        }
        let stop_reason = if c.choices.len() > 0 {
            clone_opt_string(&c.choices[0].finish_reason)
        } else {
            None
        };
        let usage = match c.usage {
            Some(u) => Some(
                AnthropicUsage { input_tokens: u.prompt_tokens, output_tokens: u.completion_tokens },
            ),
            None => None,
        };
        proof {
            reveal_strlit("message");
            reveal_strlit("assistant");
        }
        let r = AnthropicResponse {
            id: c.id,
            response_type: owned("message"),
            role: owned("assistant"),
            content,
            model: c.model,
            stop_reason,
            usage,
        };
        assert(r@.content =~= anthropic_of(source).content);
        r
    }
}

/// Converting an Anthropic request keeps the model and the sampling fields; the system prompt,
/// if any, comes first as a "system" message; then every message follows in order with its
/// role and content; there are no penalties or stop sequences.
pub proof fn law_anthropic_request_kept(r: AnthropicRequest)
    ensures
        ({
            let c = anthropic_request_canonical(r);
            let off: int = if r.system is Some { 1 } else { 0 };
            &&& c.model == r.model@
            &&& c.temperature == r.temperature
            &&& c.top_p == r.top_p
            &&& c.max_tokens == r.max_tokens
            &&& c.stream == r.stream
            &&& c.frequency_penalty is None
            &&& c.presence_penalty is None
            &&& c.stop is None
            &&& c.messages.len() == off + r.messages@.len()
            &&& match r.system {
                Some(s) => c.messages[0].role == "system"@ && c.messages[0].content == s@,
                None => true,
            }
            &&& forall|k: int|
                0 <= k < r.messages@.len() ==> {
                    &&& (#[trigger] c.messages[off + k]).role == r.messages@[k].role@
                    &&& c.messages[off + k].content == r.messages@[k].content@
                }
        }),
{
    let c = anthropic_request_canonical(r);
    let off: int = if r.system is Some { 1 } else { 0 };
    assert(system_prefix(opt_text(r.system)).len() == off);
    assert forall|k: int| 0 <= k < r.messages@.len() implies {
        &&& (#[trigger] c.messages[off + k]).role == r.messages@[k].role@
        &&& c.messages[off + k].content == r.messages@[k].content@
    } by {
        assert(c.messages[off + k] == r.messages@[k]@);
    }
}

} // verus!
