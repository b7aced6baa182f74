//! OpenAI and Anthropic wire types, request-source detection, and the conversions between
//! the two formats.
use vstd::prelude::*;

use crate::formats::anthropic::system_prefix;
use crate::headers::{header_text, RequestHeaders};
use crate::text::{contains, lower_text, occurs_in, owned, same_text, to_lower};
use crate::views::{anthropic_of, clone_opt_string, opt_text, opt_texts, AnthropicResponseView, ChatResponseView, ChoiceView, MessageView, UsageView};

verus! {

// OpenAI-compatible models

pub struct OpenAIChatRequest {
    pub model: String,
    pub messages: Vec<OpenAIMessage>,
    /// Bit pattern of the `f32` temperature.
    pub temperature: Option<u32>,
    pub max_tokens: Option<u32>,
    pub stream: Option<bool>,
    /// Bit pattern of the `f32` nucleus-sampling mass.
    pub top_p: Option<u32>,
    /// Bit pattern of the `f32` frequency penalty.
    pub frequency_penalty: Option<u32>,
    /// Bit pattern of the `f32` presence penalty.
    pub presence_penalty: Option<u32>,
    pub stop: Option<Vec<String>>,
}

pub struct OpenAIMessage {
    pub role: String,
    pub content: String,
    pub name: Option<String>,
}

pub struct OpenAIChatResponse {
    pub id: String,
    pub object: String,
    pub created: i64,
    pub model: String,
    pub choices: Vec<OpenAIChoice>,
    pub usage: Option<OpenAIUsage>,
}

pub struct OpenAIChoice {
    pub index: u32,
    pub message: OpenAIMessage,
    pub finish_reason: Option<String>,
}

#[derive(Clone, Copy, Debug)]
pub struct OpenAIUsage {
    pub prompt_tokens: u32,
    pub completion_tokens: u32,
    pub total_tokens: u32,
}

pub struct OpenAIStreamChunk {
    pub id: String,
    pub object: String,
    pub created: i64,
    pub model: String,
    pub choices: Vec<OpenAIStreamChoice>,
}

pub struct OpenAIStreamChoice {
    pub index: u32,
    pub delta: OpenAIDelta,
    pub finish_reason: Option<String>,
}

pub struct OpenAIDelta {
    pub role: Option<String>,
    pub content: Option<String>,
}

impl Default for OpenAIDelta {
    /// A delta that carries nothing.
    fn default() -> (r: Self)
        ensures
            r.role is None,
            r.content is None,
    {
        OpenAIDelta { role: None, content: None }
    }
}

// Anthropic models

pub struct AnthropicRequest {
    pub model: String,
    pub messages: Vec<AnthropicMessage>,
    pub max_tokens: Option<u32>,
    /// Bit pattern of the `f32` temperature.
    pub temperature: Option<u32>,
    /// Bit pattern of the `f32` nucleus-sampling mass.
    pub top_p: Option<u32>,
    pub stream: Option<bool>,
    pub system: Option<String>,
}

pub struct AnthropicMessage {
    pub role: String,
    pub content: String,
}

pub struct AnthropicResponse {
    pub id: String,
    pub response_type: String,
    pub role: String,
    pub content: Vec<AnthropicContent>,
    pub model: String,
    pub stop_reason: Option<String>,
    pub usage: Option<AnthropicUsage>,
}

pub enum AnthropicContent {
    Text { text: String },
}

#[derive(Clone, Copy, Debug)]
pub struct AnthropicUsage {
    pub input_tokens: u32,
    pub output_tokens: u32,
}

// Request source detection
#[derive(Clone, Copy, Debug, PartialEq, Eq, Structural)]
pub enum RequestSource {
    OpenAI,
    Anthropic,
    Zai,
    Unknown,
}

/// The content of an OpenAI chat request.
pub struct OpenAIChatRequestView {
    pub model: Seq<char>,
    pub messages: Seq<MessageView>,
    pub temperature: Option<u32>,
    pub max_tokens: Option<u32>,
    pub stream: Option<bool>,
    pub top_p: Option<u32>,
    pub frequency_penalty: Option<u32>,
    pub presence_penalty: Option<u32>,
    pub stop: Option<Seq<Seq<char>>>,
}

impl View for OpenAIMessage {
    type V = MessageView;

    open spec fn view(&self) -> MessageView {
        MessageView { role: self.role@, content: self.content@, name: opt_text(self.name) }
    }
}

impl View for OpenAIChatRequest {
    type V = OpenAIChatRequestView;

    open spec fn view(&self) -> OpenAIChatRequestView {
        OpenAIChatRequestView {
            model: self.model@,
            messages: self.messages@.map_values(|m: OpenAIMessage| m@),
            temperature: self.temperature,
            max_tokens: self.max_tokens,
            stream: self.stream,
            top_p: self.top_p,
            frequency_penalty: self.frequency_penalty,
            presence_penalty: self.presence_penalty,
            stop: opt_texts(self.stop),
        }
    }
}

impl View for OpenAIChoice {
    type V = ChoiceView;

    open spec fn view(&self) -> ChoiceView {
        ChoiceView {
            index: self.index,
            message: self.message@,
            finish_reason: opt_text(self.finish_reason),
        }
    }
}

impl View for OpenAIChatResponse {
    type V = ChatResponseView;

    open spec fn view(&self) -> ChatResponseView {
        ChatResponseView {
            id: self.id@,
            object: self.object@,
            created: self.created,
            model: self.model@,
            choices: self.choices@.map_values(|c: OpenAIChoice| c@),
            usage: match self.usage {
                Some(u) => Some(
                    UsageView {
                        prompt_tokens: u.prompt_tokens,
                        completion_tokens: u.completion_tokens,
                        total_tokens: u.total_tokens,
                    },
                ),
                None => None,
            },
        }
    }
}

impl View for AnthropicMessage {
    type V = MessageView;

    /// Anthropic messages carry no speaker name.
    open spec fn view(&self) -> MessageView {
        MessageView { role: self.role@, content: self.content@, name: None }
    }
}

impl AnthropicContent {
    /// The text of a content block.
    pub open spec fn text_of(self) -> Seq<char> {
        match self {
            AnthropicContent::Text { text } => text@,
        }
    }
}

impl View for AnthropicResponse {
    type V = AnthropicResponseView;

    open spec fn view(&self) -> AnthropicResponseView {
        AnthropicResponseView {
            id: self.id@,
            response_type: self.response_type@,
            role: self.role@,
            content: self.content@.map_values(|b: AnthropicContent| b.text_of()),
            model: self.model@,
            stop_reason: opt_text(self.stop_reason),
            usage: match self.usage {
                Some(u) => Some((u.input_tokens, u.output_tokens)),
                None => None,
            },
        }
    }
}

/// The source that a request's headers name, checked in this order: an authorization
/// header that mentions "anthropic"; an "x-source" header that reads "anthropic", "openai"
/// or "zai" in any letter case; a user agent that mentions "anthropic" or "openai" in any
/// letter case; a ":path" header that mentions "anthropic", or "openai" or
/// "chat/completions". Otherwise the source is unknown.
pub open spec fn source_of(headers: Seq<(String, Option<String>)>) -> RequestSource {
    let auth = header_text(headers, "authorization"@);
    let source = header_text(headers, "x-source"@);
    let agent = header_text(headers, "user-agent"@);
    let path = header_text(headers, ":path"@);
    if auth matches Some(a) && occurs_in("anthropic"@, a) {
        RequestSource::Anthropic
    } else if source matches Some(s) && lower_text(s) == "anthropic"@ {
        RequestSource::Anthropic
    } else if source matches Some(s) && lower_text(s) == "openai"@ {
        RequestSource::OpenAI
    } else if source matches Some(s) && lower_text(s) == "zai"@ {
        RequestSource::Zai
    } else if agent matches Some(ua) && occurs_in("anthropic"@, lower_text(ua)) {
        RequestSource::Anthropic
    } else if agent matches Some(ua) && occurs_in("openai"@, lower_text(ua)) {
        RequestSource::OpenAI
    } else if path matches Some(p) && occurs_in("anthropic"@, p) {
        RequestSource::Anthropic
    } else if path matches Some(p) && (occurs_in("openai"@, p) || occurs_in(
        "chat/completions"@,
        p,
    )) {
        RequestSource::OpenAI
    } else {
        RequestSource::Unknown
    }
}

impl RequestSource {
    /// Identifies the source of a request from its headers.
    pub fn from_headers(headers: &RequestHeaders) -> (r: Self)
        ensures
            r == source_of(headers.entries@),
    {
        proof {
            reveal_strlit("authorization");
            reveal_strlit("x-source");
            reveal_strlit("user-agent");
            reveal_strlit(":path");
        }
        // Check for specific headers to identify the source
        if let Some(auth_str) = headers.get_text("authorization") {
            if contains(auth_str.as_str(), "anthropic") {
                return RequestSource::Anthropic;
            }
        }
        // Check X-Source header or User-Agent
        if let Some(source_str) = headers.get_text("x-source") {
            let lower = to_lower(source_str.as_str());
            if same_text(lower.as_str(), "anthropic") {
                return RequestSource::Anthropic;
            }
            if same_text(lower.as_str(), "openai") {
                return RequestSource::OpenAI;
            }
            if same_text(lower.as_str(), "zai") {
                return RequestSource::Zai;
            }
        }
        // Check User-Agent
        if let Some(ua_str) = headers.get_text("user-agent") {
            let ua_lower = to_lower(ua_str.as_str());
            if contains(ua_lower.as_str(), "anthropic") {
                return RequestSource::Anthropic;
            }
            if contains(ua_lower.as_str(), "openai") {
                return RequestSource::OpenAI;
            }
        }
        // Check request path
        if let Some(path_str) = headers.get_text(":path") {
            if contains(path_str.as_str(), "anthropic") {
                return RequestSource::Anthropic;
            }
            if contains(path_str.as_str(), "openai") || contains(path_str.as_str(), "chat/completions") {
                return RequestSource::OpenAI;
            }
        }
        RequestSource::Unknown
    }
}

// Conversion functions

/// The OpenAI request that an Anthropic request stands for: the system prompt, if any, as a
/// first "system" message, then the messages with their roles kept, and no speaker names.
pub open spec fn openai_of(r: AnthropicRequest) -> OpenAIChatRequestView {
    OpenAIChatRequestView {
        model: r.model@,
        messages: system_prefix(opt_text(r.system)) + r.messages@.map_values(
            |m: AnthropicMessage| m@,
        ),
        temperature: r.temperature,
        max_tokens: r.max_tokens,
        stream: r.stream,
        top_p: r.top_p,
        frequency_penalty: None,
        presence_penalty: None,
        stop: None,
    }
}

/// The role of a message in the OpenAI format: "assistant" and "user" map to themselves,
/// and any other role is kept as it is.
fn openai_role(role: String) -> (r: String)
    ensures
        r@ == role@,
{
    proof {
        reveal_strlit("assistant");
        reveal_strlit("user");
    }
    if same_text(role.as_str(), "assistant") {
        owned("assistant")
    } else if same_text(role.as_str(), "user") {
        owned("user")
    } else {
        role
    }
}

impl AnthropicRequest {
    /// Converts to an OpenAI chat request.
    pub fn to_openai(self) -> (r: OpenAIChatRequest)
        ensures
            r@ == openai_of(self),
            r.temperature == self.temperature,
            r.max_tokens == self.max_tokens,
            r.stream == self.stream,
            r.top_p == self.top_p,
    {
        let ghost source = self;
        let AnthropicRequest { model, messages, max_tokens, temperature, top_p, stream, system } =
            self;
        let ghost input = messages@;
        let mut out: Vec<OpenAIMessage> = Vec::new();
        // Convert system message if present
        if let Some(s) = system {
            proof {
                reveal_strlit("system");
            }
            out.push(OpenAIMessage { role: owned("system"), content: s, name: None });
        }
        let ghost m0 = out@;
        assert(m0.map_values(|m: OpenAIMessage| m@) =~= system_prefix(opt_text(source.system)));
        // Convert Anthropic messages to OpenAI format
        for m in it: messages.into_iter()
            invariant
                it.seq() == input,
                out@.len() == m0.len() + it.index(),
                forall|j: int| 0 <= j < m0.len() ==> #[trigger] out@[j] == m0[j],
                forall|j: int| 0 <= j < it.index() ==> #[trigger] out@[m0.len() + j]@ == input[j]@,
        {
            let AnthropicMessage { role, content } = m;
            out.push(OpenAIMessage { role: openai_role(role), content, name: None });
        }
        let r = OpenAIChatRequest {
            model,
            messages: out,
            temperature,
            max_tokens,
            stream,
            top_p,
            frequency_penalty: None,
            presence_penalty: None,
            stop: None,
        };
        proof {
            let want = openai_of(source);
            let rest = input.map_values(|m: AnthropicMessage| m@);
            assert forall|j: int| 0 <= j < r@.messages.len() implies #[trigger] r@.messages[j] == want.messages[j] by {
                if j < m0.len() {
                    assert(out@[j] == m0[j]);
                } else {
                    assert(out@[m0.len() + (j - m0.len())]@ == input[j - m0.len()]@);
                }
            }
            assert(r@.messages =~= want.messages);
        }
        r
    }
}

impl OpenAIChatResponse {
    /// Converts to an Anthropic response: one text block per choice, the first choice's
    /// finish reason as the stop reason, prompt and completion tokens as input and output
    /// tokens.
    pub fn to_anthropic(self) -> (r: AnthropicResponse)
        ensures
            r@ == anthropic_of(self@),
    {
        let ghost source = self@;
        let mut content: Vec<AnthropicContent> = Vec::new();
        let mut i: usize = 0;
        while i < self.choices.len()
            invariant
                i <= self.choices.len(),
                source == self@,
                content@.len() == i,
                forall|j: int| 0 <= j < i ==> #[trigger] content@[j].text_of() == source.choices[j].message.content,
            decreases self.choices.len() - i,
        {
            content.push(AnthropicContent::Text { text: self.choices[i].message.content.clone() });
            i = i + 1;
        }
        let usage = match self.usage {
            Some(u) => Some(
                AnthropicUsage { input_tokens: u.prompt_tokens, output_tokens: u.completion_tokens },
            ),
            None => None,
        };
        let stop_reason = if self.choices.len() > 0 {
            clone_opt_string(&self.choices[0].finish_reason)
        } else {
            None
        };
        proof {
            reveal_strlit("message");
            reveal_strlit("assistant");
        }
        let r = AnthropicResponse {
            id: self.id,
            response_type: owned("message"),
            role: owned("assistant"),
            content,
            model: self.model,
            stop_reason,
            usage,
        };
        assert(r@.content =~= anthropic_of(source).content);
        r
    }
}

// Zai format - uses OpenAI-compatible format with slight variations
pub type ZaiRequest = OpenAIChatRequest;

pub type ZaiResponse = OpenAIChatResponse;

/// Converting an Anthropic request to an OpenAI one keeps the model and the sampling fields
/// (temperature, nucleus-sampling mass, token limit, streaming); the system prompt, if any,
/// comes first as a "system" message; then every message follows in order with its role and
/// content and no speaker name; there are no penalties or stop sequences.
pub proof fn law_to_openai_kept(r: AnthropicRequest)
    ensures
        ({
            let o = openai_of(r);
            let off: int = if r.system is Some { 1 } else { 0 };
            &&& o.model == r.model@
            &&& o.temperature == r.temperature
            &&& o.top_p == r.top_p
            &&& o.max_tokens == r.max_tokens
            &&& o.stream == r.stream
            &&& o.frequency_penalty is None
            &&& o.presence_penalty is None
            &&& o.stop is None
            &&& o.messages.len() == off + r.messages@.len()
            &&& match r.system {
                Some(s) => o.messages[0].role == "system"@ && o.messages[0].content == s@ && o.messages[0].name is None,
                None => true,
            }
            &&& forall|k: int|
                0 <= k < r.messages@.len() ==> {
                    &&& (#[trigger] o.messages[off + k]).role == r.messages@[k].role@
                    &&& o.messages[off + k].content == r.messages@[k].content@
                    &&& o.messages[off + k].name is None
                }
        }),
{
    let o = openai_of(r);
    let off: int = if r.system is Some { 1 } else { 0 };
    assert(system_prefix(opt_text(r.system)).len() == off);
    assert forall|k: int| 0 <= k < r.messages@.len() implies {
        &&& (#[trigger] o.messages[off + k]).role == r.messages@[k].role@
        &&& o.messages[off + k].content == r.messages@[k].content@
        &&& o.messages[off + k].name is None
    } by {
        assert(o.messages[off + k] == r.messages@[k]@);
    }
}

/// An authorization header that mentions "anthropic" marks the request as Anthropic, whatever
/// the other headers say.
pub proof fn law_anthropic_authorization_decides(headers: Seq<(String, Option<String>)>, auth: Seq<char>)
    requires
        header_text(headers, "authorization"@) == Some(auth),
        occurs_in("anthropic"@, auth),
    ensures
        source_of(headers) == RequestSource::Anthropic,
{
}

/// Otherwise an "x-source" header naming a source in any letter case decides, before the
/// user agent and the path.
pub proof fn law_source_header_names_source(headers: Seq<(String, Option<String>)>, source: Seq<char>)
    requires
        match header_text(headers, "authorization"@) {
            Some(a) => !occurs_in("anthropic"@, a),
            None => true,
        },
        header_text(headers, "x-source"@) == Some(source),
    ensures
        lower_text(source) == "anthropic"@ ==> source_of(headers) == RequestSource::Anthropic,
        lower_text(source) == "openai"@ ==> source_of(headers) == RequestSource::OpenAI,
        lower_text(source) == "zai"@ ==> source_of(headers) == RequestSource::Zai,
{
    reveal_strlit("anthropic");
    reveal_strlit("openai");
    reveal_strlit("zai");
    assert("anthropic"@ != "openai"@) by {
        assert("anthropic"@.len() != "openai"@.len());
    }
    assert("anthropic"@ != "zai"@) by {
        assert("anthropic"@.len() != "zai"@.len());
    }
    assert("openai"@ != "zai"@) by {
        assert("openai"@.len() != "zai"@.len());
    }
}

/// A request with none of the authorization, "x-source", user-agent and ":path" headers has
/// an unknown source.
pub proof fn law_no_hint_is_unknown(headers: Seq<(String, Option<String>)>)
    requires
        header_text(headers, "authorization"@) is None,
        header_text(headers, "x-source"@) is None,
        header_text(headers, "user-agent"@) is None,
        header_text(headers, ":path"@) is None,
    ensures
        source_of(headers) == RequestSource::Unknown,
{
}

} // verus!
