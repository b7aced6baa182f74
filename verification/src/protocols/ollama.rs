//! The Ollama generate/chat format.
use vstd::prelude::*;

use super::{CanonicalChatRequest, CanonicalChatResponse, CanonicalMessage, ChatRequestView};
use crate::formats::anthropic::system_prefix;
use crate::text::owned;
use crate::views::{opt_text, ChatResponseView, MessageView};

verus! {

pub struct OllamaRequest {
    pub model: String,
    pub prompt: Option<String>,
    pub messages: Option<Vec<OllamaMessage>>,
    pub system: Option<String>,
    pub stream: Option<bool>,
    pub options: Option<OllamaOptions>,
}

pub struct OllamaMessage {
    pub role: String,
    pub content: String,
}

#[derive(Clone, Copy, Debug)]
pub struct OllamaOptions {
    /// Bit pattern of the `f32` temperature.
    pub temperature: Option<u32>,
    /// Bit pattern of the `f32` nucleus-sampling mass.
    pub top_p: Option<u32>,
    pub num_predict: Option<i32>,
}

pub struct OllamaResponse {
    pub model: String,
    pub response: Option<String>,
    pub done: bool,
}

/// The content of an Ollama response.
pub struct OllamaResponseView {
    pub model: Seq<char>,
    pub response: Option<Seq<char>>,
    pub done: bool,
}

impl View for OllamaResponse {
    type V = OllamaResponseView;

    open spec fn view(&self) -> OllamaResponseView {
        OllamaResponseView { model: self.model@, response: opt_text(self.response), done: self.done }
    }
}

/// An Ollama message as a canonical message, which carries no speaker name.
pub open spec fn ollama_message_canonical(m: OllamaMessage) -> MessageView {
    MessageView { role: m.role@, content: m.content@, name: None }
}

/// The conversation that an Ollama request stands for: the system prompt first, if any;
/// then the chat messages, or, where there are none, the prompt as a "user" message.
pub open spec fn ollama_messages(r: OllamaRequest) -> Seq<MessageView> {
    system_prefix(opt_text(r.system)) + match r.messages {
        Some(ms) => ms@.map_values(|m: OllamaMessage| ollama_message_canonical(m)),
        None => match r.prompt {
            Some(p) => seq![MessageView { role: "user"@, content: p@, name: None }],
            None => Seq::empty(),
        },
    }
}

/// The canonical request that an Ollama request stands for. A negative `num_predict`
/// becomes its two's-complement `u32` reading, as an `as` cast does.
pub open spec fn ollama_request_canonical(r: OllamaRequest) -> ChatRequestView {
    ChatRequestView {
        model: r.model@,
        messages: ollama_messages(r),
        temperature: match r.options {
            Some(o) => o.temperature,
            None => None,
        },
        max_tokens: match r.options {
            Some(o) => match o.num_predict {
                Some(n) => Some(n as u32),
                None => None,
            },
            None => None,
        },
        stream: r.stream,
        top_p: match r.options {
            Some(o) => o.top_p,
            None => None,
        },
        frequency_penalty: None,
        presence_penalty: None,
        stop: None,
    }
}

/// The Ollama response for a canonical response: the first choice's content (empty
/// without choices), marked done.
pub open spec fn ollama_response_of(c: ChatResponseView) -> OllamaResponseView {
    OllamaResponseView {
        model: c.model,
        response: Some(
            if c.choices.len() > 0 {
                c.choices[0].message.content
            } else {
                Seq::empty()
            },
        ),
        done: true,
    }
}

impl OllamaRequest {
    /// Converts to the canonical request.
    pub fn to_canonical(&self) -> (r: CanonicalChatRequest)
        ensures
            r@ == ollama_request_canonical(*self),
    {
        let mut messages: Vec<CanonicalMessage> = Vec::new();
        proof {
            reveal_strlit("system");
            reveal_strlit("user");
        }
        if let Some(system) = &self.system {
            messages.push(CanonicalMessage { role: owned("system"), content: system.clone(), name: None });
        }
        let ghost m0 = messages@;
        assert(m0.map_values(|m: CanonicalMessage| m@) =~= system_prefix(opt_text(self.system)));
        if let Some(chat) = &self.messages {
            let mut i: usize = 0;
            while i < chat.len()
                invariant
                    i <= chat.len(),
                    messages@.len() == m0.len() + i,
                    forall|j: int| 0 <= j < m0.len() ==> #[trigger] messages@[j] == m0[j],
                    forall|j: int| 0 <= j < i ==> #[trigger] messages@[m0.len() + j]@ == ollama_message_canonical(chat@[j]),
                decreases chat.len() - i,
            {
                let msg = &chat[i];
                messages.push(
                    CanonicalMessage { role: msg.role.clone(), content: msg.content.clone(), name: None },
                );
                i = i + 1;
            }
            proof {
                let want = ollama_messages(*self);
                let prefix = system_prefix(opt_text(self.system));
                let rest = chat@.map_values(|m: OllamaMessage| ollama_message_canonical(m));
                assert(want == prefix + rest);
                assert forall|j: int| 0 <= j < messages@.len() implies #[trigger] messages@[j]@ == want[j] by {
                    if j < m0.len() {
                        assert(messages@[j] == m0[j]);
                    } else {
                        assert(messages@[m0.len() + (j - m0.len())]@ == ollama_message_canonical(chat@[j - m0.len()]));
                    }
                }
                assert(messages@.map_values(|m: CanonicalMessage| m@) =~= want);
            }
        } else if let Some(prompt) = &self.prompt {
            messages.push(CanonicalMessage { role: owned("user"), content: prompt.clone(), name: None });
            assert(messages@.map_values(|m: CanonicalMessage| m@) =~= ollama_messages(*self));
        } else {
            assert(messages@.map_values(|m: CanonicalMessage| m@) =~= ollama_messages(*self));
        }
        let (temperature, top_p, max_tokens) = match self.options {
            Some(o) => (
                o.temperature,
                o.top_p,
                match o.num_predict {
                    Some(n) => Some(#[verifier::truncate] (n as u32)),
                    None => None,
                },
            ),
            None => (None, None, None),
        };
        CanonicalChatRequest {
            model: self.model.clone(),
            messages,
            temperature,
            max_tokens,
            stream: self.stream,
            top_p,
            frequency_penalty: None,
            presence_penalty: None,
            stop: None,
        }
    }
}

impl OllamaResponse {
    /// The Ollama response for a canonical response.
    pub fn from_canonical(c: &CanonicalChatResponse) -> (r: OllamaResponse)
        ensures
            r@ == ollama_response_of(c@),
    {
        let content = if c.choices.len() > 0 {
            c.choices[0].message.content.clone()
        } else {
            String::new()
        };
        OllamaResponse { model: c.model.clone(), response: Some(content), done: true }
    }
}

/// Converting an Ollama request keeps the model and the streaming flag; the system prompt,
/// if any, comes first as a "system" message; then every chat message follows in order with
/// its own role and content, or, without chat messages, the prompt as one "user" message. The
/// options' temperature and nucleus-sampling mass are kept, and `num_predict` becomes the
/// token limit.
pub proof fn law_ollama_request_kept(r: OllamaRequest)
    ensures
        ({
            let c = ollama_request_canonical(r);
            let off: int = if r.system is Some { 1 } else { 0 };
            &&& c.model == r.model@
            &&& c.stream == r.stream
            &&& c.temperature == match r.options {
                Some(o) => o.temperature,
                None => None,
            }
            &&& c.top_p == match r.options {
                Some(o) => o.top_p,
                None => None,
            }
            &&& c.max_tokens == match r.options {
                Some(o) => match o.num_predict {
                    Some(n) => Some(n as u32),
                    None => None,
                },
                None => None,
            }
            &&& match r.system {
                Some(s) => c.messages[0].role == "system"@ && c.messages[0].content == s@,
                None => true,
            }
            &&& match r.messages {
                Some(ms) => c.messages.len() == off + ms@.len() && forall|k: int|
                    0 <= k < ms@.len() ==> {
                        &&& (#[trigger] c.messages[off + k]).role == ms@[k].role@
                        &&& c.messages[off + k].content == ms@[k].content@
                    },
                None => match r.prompt {
                    Some(p) => c.messages.len() == off + 1 && c.messages[off].role == "user"@
                        && c.messages[off].content == p@,
                    None => c.messages.len() == off,
                },
            }
        }),
{
    let c = ollama_request_canonical(r);
    let off: int = if r.system is Some { 1 } else { 0 };
    assert(system_prefix(opt_text(r.system)).len() == off);
    match r.messages {
        Some(ms) => {
            assert forall|k: int| 0 <= k < ms@.len() implies {
                &&& (#[trigger] c.messages[off + k]).role == ms@[k].role@
                &&& c.messages[off + k].content == ms@[k].content@
            } by {
                assert(c.messages[off + k] == ollama_message_canonical(ms@[k]));
            }
        },
        None => {},
    }
}

/// The Ollama response carries the model and, as its text, the first choice's content
/// (empty without choices), and is marked done.
pub proof fn law_ollama_response_text(c: CanonicalChatResponse)
    ensures
        ({
            let o = ollama_response_of(c@);
            &&& o.model == c.model@
            &&& o.done
            &&& o.response == Some(if c.choices@.len() > 0 {
                c.choices@[0].message.content@
            } else {
                Seq::empty()
            })
        }),
{
}

} // verus!
