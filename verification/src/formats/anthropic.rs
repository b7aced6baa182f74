//! The Anthropic messages format.
use vstd::prelude::*;

use super::{CanonicalChatRequest, CanonicalChatRequestView, CanonicalChatResponse, CanonicalMessage};
use crate::text::owned;
use crate::views::{anthropic_of, clone_opt_string, opt_text, AnthropicResponseView, MessageView};

verus! {

pub struct AnthropicRequest {
    pub model: String,
    pub messages: Vec<AnthropicMessage>,
    pub max_tokens: Option<u32>,
    /// Bit pattern of the `f32` temperature.
    pub temperature: Option<u32>,
    /// Bit pattern of the `f32` nucleus-sampling mass.
    pub top_p: Option<u32>,
    pub stream: Option<bool>,
    pub system: Option<String>,
}

pub struct AnthropicMessage {
    pub role: String,
    pub content: String,
}

pub struct AnthropicResponse {
    pub id: String,
    pub response_type: String,
    pub role: String,
    pub content: Vec<AnthropicContent>,
    pub model: String,
    pub stop_reason: Option<String>,
    pub usage: Option<AnthropicUsage>,
}

pub enum AnthropicContent {
    Text { text: String },
}

#[derive(Clone, Copy, Debug)]
pub struct AnthropicUsage {
    pub input_tokens: u32,
    pub output_tokens: u32,
}

impl View for AnthropicMessage {
    type V = MessageView;

    /// Anthropic messages carry no speaker name.
    open spec fn view(&self) -> MessageView {
        MessageView { role: self.role@, content: self.content@, name: None }
    }
}

impl AnthropicContent {
    /// The text of a content block.
    pub open spec fn text_of(self) -> Seq<char> {
        match self {
            AnthropicContent::Text { text } => text@,
        }
    }
}

impl View for AnthropicResponse {
    type V = AnthropicResponseView;

    open spec fn view(&self) -> AnthropicResponseView {
        AnthropicResponseView {
            id: self.id@,
            response_type: self.response_type@,
            role: self.role@,
            content: self.content@.map_values(|b: AnthropicContent| b.text_of()),
            model: self.model@,
            stop_reason: opt_text(self.stop_reason),
            usage: match self.usage {
                Some(u) => Some((u.input_tokens, u.output_tokens)),
                None => None,
            },
        }
    }
}

/// The message that a top-level system prompt becomes.
pub open spec fn system_message(s: Seq<char>) -> MessageView {
    MessageView { role: "system"@, content: s, name: None }
}

/// The messages that an optional system prompt contributes in front of the others.
pub open spec fn system_prefix(system: Option<Seq<char>>) -> Seq<MessageView> {
    match system {
        Some(s) => seq![system_message(s)],
        None => Seq::empty(),
    }
}

/// The canonical request that an Anthropic request stands for: the system prompt, if any,
/// as a first "system" message before the request's messages, and kept as the system field.
pub open spec fn anthropic_request_canonical(r: AnthropicRequest) -> CanonicalChatRequestView {
    CanonicalChatRequestView {
        model: r.model@,
        messages: system_prefix(opt_text(r.system)) + r.messages@.map_values(
            |m: AnthropicMessage| m@,
        ),
        temperature: r.temperature,
        max_tokens: r.max_tokens,
        stream: r.stream,
        top_p: r.top_p,
        frequency_penalty: None,
        presence_penalty: None,
        stop: None,
        system: opt_text(r.system),
        extra: Map::empty(),
    }
}

impl AnthropicRequest {
    /// Converts to the canonical request.
    pub fn to_canonical(self) -> (r: CanonicalChatRequest)
        ensures
            r@ == anthropic_request_canonical(self),
            r.temperature == self.temperature,
            r.max_tokens == self.max_tokens,
            r.stream == self.stream,
            r.top_p == self.top_p,
    {
        let ghost source = self;
        let AnthropicRequest { model, messages, max_tokens, temperature, top_p, stream, system } =
            self;
        let ghost input = messages@;
        let mut out: Vec<CanonicalMessage> = Vec::new();
        for m in it: messages.into_iter()
            invariant
                it.seq() == input,
                out@.len() == it.index(),
                forall|j: int| 0 <= j < it.index() ==> #[trigger] out@[j]@ == input[j]@,
        {
            out.push(CanonicalMessage { role: m.role, content: m.content, name: None });
        }
        let ghost mapped = out@;
        // Convert system message if present
        if let Some(s) = &system {
            out.insert(
                0,
                CanonicalMessage { role: owned("system"), content: s.clone(), name: None },
            );
            proof {
                reveal_strlit("system");
            }
        }
        let r = CanonicalChatRequest {
            model,
            messages: out,
            temperature,
            max_tokens,
            stream,
            top_p,
            frequency_penalty: None,
            presence_penalty: None,
            stop: None,
            system: clone_opt_string(&system),
            extra: Vec::new(),
        };
        proof {
            let want = anthropic_request_canonical(source);
            assert(mapped.map_values(|m: CanonicalMessage| m@) =~= input.map_values(
                |m: AnthropicMessage| m@,
            ));
            assert(r@.messages =~= want.messages);
            assert(r@.extra =~= Map::empty());
        }
        r
    }
}

impl AnthropicResponse {
    /// The Anthropic response for a canonical response: one text block per choice, the first
    /// choice's finish reason as the stop reason, prompt and completion tokens as input and
    /// output tokens.
    pub fn from_canonical(c: CanonicalChatResponse) -> (r: AnthropicResponse)
        ensures
            r@ == anthropic_of(c@),
    {
        let ghost source = c@;
        let mut content: Vec<AnthropicContent> = Vec::new();
        let mut i: usize = 0;
        while i < c.choices.len()
            invariant
                i <= c.choices.len(),
                source == c@,
                content@.len() == i,
                forall|j: int| 0 <= j < i ==> #[trigger] content@[j].text_of() == source.choices[j].message.content,
            decreases c.choices.len() - i,
        {
            content.push(AnthropicContent::Text { text: c.choices[i].message.content.clone() });
            i = i + 1;
        }
        let stop_reason = if c.choices.len() > 0 {
            clone_opt_string(&c.choices[0].finish_reason)
        } else {
            None
        };
        let usage = match c.usage {
            Some(u) => Some(
                AnthropicUsage { input_tokens: u.prompt_tokens, output_tokens: u.completion_tokens },
            ),
            None => None,
        };
        proof {
            reveal_strlit("message");
            reveal_strlit("assistant");
        }
        let r = AnthropicResponse {
            id: c.id,
            response_type: owned("message"),
            role: owned("assistant"),
            content,
            model: c.model,
            stop_reason,
            usage,
        };
        proof {
            assert(r@.content =~= anthropic_of(source).content);
        }
        r
    }
}

/// Converting an Anthropic request keeps the model and the sampling fields; the system prompt,
/// if any, is kept as the system field and comes first as a "system" message; then every
/// message follows in order with its role and content; there are no penalties, stop
/// sequences or extra members.
pub proof fn law_anthropic_request_kept(r: AnthropicRequest)
    ensures
        ({
            let c = anthropic_request_canonical(r);
            let off: int = if r.system is Some { 1 } else { 0 };
            &&& c.model == r.model@
            &&& c.temperature == r.temperature
            &&& c.top_p == r.top_p
            &&& c.max_tokens == r.max_tokens
            &&& c.stream == r.stream
            &&& c.frequency_penalty is None
            &&& c.presence_penalty is None
            &&& c.stop is None
            &&& c.extra == Map::<Seq<char>, crate::json::JsonView>::empty()
            &&& c.messages.len() == off + r.messages@.len()
            &&& match r.system {
                Some(s) => c.system == Some(s@) && c.messages[0].role == "system"@ && c.messages[0].content == s@
                    && c.messages[0].name is None,
                None => c.system is None,
            }
            &&& forall|k: int|
                0 <= k < r.messages@.len() ==> {
                    &&& (#[trigger] c.messages[off + k]).role == r.messages@[k].role@
                    &&& c.messages[off + k].content == r.messages@[k].content@
                    &&& c.messages[off + k].name is None
                }
        }),
{
    let c = anthropic_request_canonical(r);
    let off: int = if r.system is Some { 1 } else { 0 };
    let pre = system_prefix(opt_text(r.system));
    assert(pre.len() == off);
    assert forall|k: int| 0 <= k < r.messages@.len() implies (#[trigger] c.messages[off + k]).role
        == r.messages@[k].role@ by {
        assert(c.messages[off + k] == r.messages@[k]@);
    }
    assert forall|k: int| 0 <= k < r.messages@.len() implies c.messages[off + k].content
        == r.messages@[k].content@ && c.messages[off + k].name is None by {
        assert(c.messages[off + k] == r.messages@[k]@);
    }
}

} // verus!
