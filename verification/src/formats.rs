//! The canonical chat format that every protocol is converted to and from, the request
//! interpreters and response formatters of each protocol, and the registry that holds them.
use vstd::prelude::*;

use crate::json::{members_map, JsonValue, JsonView};
use crate::views::{opt_text, opt_texts, ChatResponseView, ChoiceView, MessageView, UsageView};

pub mod anthropic;
pub mod ollama;
pub mod openai;
use crate::assoc::{entry_names, file_under, first_where, lemma_lookup_absent, lemma_lookup_index, lookup, position, well_filed};
use crate::headers::{header_text, RequestHeaders};
use crate::json::{decimal, decimal_string, json_kind_at, json_pointer_kind, JsonKind};
use crate::text::{concat, contains, lower_text, occurs_in, owned, same_text, to_lower};
use crate::views::{clone_opt_string, AnthropicResponseView};
use self::anthropic::AnthropicResponse;
use self::ollama::{clock_stamp, ollama_response_of, OllamaResponse, OllamaResponseView};
use self::openai::OpenAIChatResponse;

verus! {

/// Internal canonical representation of a chat request. Sampling parameters that the
/// protocols carry as `f32` are held by their IEEE-754 bit pattern (`f32::to_bits`).
pub struct CanonicalChatRequest {
    pub model: String,
    pub messages: Vec<CanonicalMessage>,
    pub temperature: Option<u32>,
    pub max_tokens: Option<u32>,
    pub stream: Option<bool>,
    pub top_p: Option<u32>,
    pub frequency_penalty: Option<u32>,
    pub presence_penalty: Option<u32>,
    pub stop: Option<Vec<String>>,
    /// Additional provider-specific fields
    pub system: Option<String>,
    /// Further members that the upstream request carries beside the fields above.
    pub extra: Vec<(String, JsonValue)>,
}

/// The content of a canonical chat request.
pub struct CanonicalChatRequestView {
    pub model: Seq<char>,
    pub messages: Seq<MessageView>,
    pub temperature: Option<u32>,
    pub max_tokens: Option<u32>,
    pub stream: Option<bool>,
    pub top_p: Option<u32>,
    pub frequency_penalty: Option<u32>,
    pub presence_penalty: Option<u32>,
    pub stop: Option<Seq<Seq<char>>>,
    pub system: Option<Seq<char>>,
    pub extra: Map<Seq<char>, JsonView>,
}

pub struct CanonicalMessage {
    pub role: String,
    pub content: String,
    pub name: Option<String>,
}

/// Internal canonical representation of a chat response
pub struct CanonicalChatResponse {
    pub id: String,
    pub object: String,
    pub created: i64,
    pub model: String,
    pub choices: Vec<CanonicalChoice>,
    pub usage: Option<CanonicalUsage>,
}

pub struct CanonicalChoice {
    pub index: u32,
    pub message: CanonicalMessage,
    pub finish_reason: Option<String>,
}

#[derive(Clone, Copy, Debug)]
pub struct CanonicalUsage {
    pub prompt_tokens: u32,
    pub completion_tokens: u32,
    pub total_tokens: u32,
}

impl View for CanonicalMessage {
    type V = MessageView;

    open spec fn view(&self) -> MessageView {
        MessageView { role: self.role@, content: self.content@, name: opt_text(self.name) }
    }
}

impl View for CanonicalUsage {
    type V = UsageView;

    open spec fn view(&self) -> UsageView {
        UsageView {
            prompt_tokens: self.prompt_tokens,
            completion_tokens: self.completion_tokens,
            total_tokens: self.total_tokens,
        }
    }
}

impl View for CanonicalChoice {
    type V = ChoiceView;

    open spec fn view(&self) -> ChoiceView {
        ChoiceView {
            index: self.index,
            message: self.message@,
            finish_reason: opt_text(self.finish_reason),
        }
    }
}

impl View for CanonicalChatResponse {
    type V = ChatResponseView;

    open spec fn view(&self) -> ChatResponseView {
        ChatResponseView {
            id: self.id@,
            object: self.object@,
            created: self.created,
            model: self.model@,
            choices: self.choices@.map_values(|c: CanonicalChoice| c@),
            usage: match self.usage {
                Some(u) => Some(u@),
                None => None,
            },
        }
    }
}

impl View for CanonicalChatRequest {
    type V = CanonicalChatRequestView;

    open spec fn view(&self) -> CanonicalChatRequestView {
        CanonicalChatRequestView {
            model: self.model@,
            messages: self.messages@.map_values(|m: CanonicalMessage| m@),
            temperature: self.temperature,
            max_tokens: self.max_tokens,
            stream: self.stream,
            top_p: self.top_p,
            frequency_penalty: self.frequency_penalty,
            presence_penalty: self.presence_penalty,
            stop: opt_texts(self.stop),
            system: opt_text(self.system),
            extra: members_map(self.extra@),
        }
    }
}

impl CanonicalMessage {
    /// An exact copy.
    pub fn duplicate(&self) -> (r: CanonicalMessage)
        ensures
            r@ == self@,
    {
        CanonicalMessage {
            role: self.role.clone(),
            content: self.content.clone(),
            name: clone_opt_string(&self.name),
        }
    }
}

impl CanonicalChatResponse {
    /// An exact copy.
    pub fn duplicate(&self) -> (r: CanonicalChatResponse)
        ensures
            r@ == self@,
    {
        let mut choices: Vec<CanonicalChoice> = Vec::new();
        let mut i: usize = 0;
        while i < self.choices.len()
            invariant
                i <= self.choices.len(),
                choices@.len() == i,
                forall|j: int| 0 <= j < i ==> #[trigger] choices@[j]@ == self.choices@[j]@,
            decreases self.choices.len() - i,
        {
            let c = &self.choices[i];
            choices.push(
                CanonicalChoice {
                    index: c.index,
                    message: c.message.duplicate(),
                    finish_reason: clone_opt_string(&c.finish_reason),
                },
            );
            i = i + 1;
        }
        let r = CanonicalChatResponse {
            id: self.id.clone(),
            object: self.object.clone(),
            created: self.created,
            model: self.model.clone(),
            choices,
            usage: self.usage,
        };
        assert(r@.choices =~= self@.choices);
        r
    }
}

/// Trait for recognising incoming requests of one format. Decoding the request body into
/// the format's request type is serde's work and is done by the caller; the decoded
/// request is converted by its `to_canonical`.
pub trait RequestInterpreter {
    /// The name under which the interpreter is registered.
    spec fn spec_name(&self) -> Seq<char>;

    /// Whether the interpreter takes a request with these headers and this body.
    spec fn accepts(&self, headers: RequestHeaders, body: &[u8]) -> bool;

    /// Name of this interpreter (e.g., "anthropic", "openai")
    fn name(&self) -> (r: &'static str)
        ensures
            r@ == self.spec_name(),
    ;

    /// Check if this interpreter can handle the given request
    fn can_interpret(&self, headers: &RequestHeaders, body: &[u8]) -> (r: bool)
        ensures
            r == self.accepts(*headers, body),
    ;
}

/// A request format supplied by the library's user: it recognises its requests, as the
/// built-in interpreters do, and decodes their bodies itself. `format_name` and `takes` state
/// what `name` and `can_interpret` give; they are written over plain types, so that an
/// implementation outside Verus can give them as ordinary methods. Registered formats are
/// shared by concurrent request handlers, hence `Sync`.
pub trait CustomInterpreter: Sync {
    /// The name under which the interpreter is registered.
    spec fn format_name(&self) -> &'static str;

    /// Whether the interpreter takes a request with these headers and this body.
    spec fn takes(&self, headers: RequestHeaders, body: &[u8]) -> bool;

    /// Name of this interpreter (e.g., "gemini")
    fn name(&self) -> (r: &'static str)
        ensures
            r@ == self.format_name()@,
    ;

    /// Check if this interpreter can handle the given request
    fn can_interpret(&self, headers: &RequestHeaders, body: &[u8]) -> (r: bool)
        ensures
            r == self.takes(*headers, body),
    ;

    /// Decodes a request body into the canonical request.
    fn interpret(&self, body: &[u8]) -> Result<CanonicalChatRequest, String>;
}

/// A response format supplied by the library's user, which encodes responses itself.
/// `format_name` states what `name` gives, over a plain type. Registered formats are shared
/// by concurrent request handlers, hence `Sync`.
pub trait CustomFormatter: Sync {
    /// The name under which the formatter is registered.
    spec fn format_name(&self) -> &'static str;

    /// Name of this formatter (e.g., "gemini")
    fn name(&self) -> (r: &'static str)
        ensures
            r@ == self.format_name()@,
    ;

    /// Whether `out` is an encoding of `response` by this formatter: the bytes it encodes the
    /// response to, or the error it gives. A relation, so that an encoding may vary from call
    /// to call (one stamped with the time, say).
    spec fn encodes(&self, response: &CanonicalChatResponse, out: &Result<Vec<u8>, String>) -> bool;

    /// The encoded response, or why it could not be encoded.
    fn format(&self, response: &CanonicalChatResponse) -> (r: Result<Vec<u8>, String>)
        ensures
            self.encodes(response, &r),
    ;
}

/// A response in one of the output formats: a built-in format's response, ready to be
/// encoded as JSON, or the bytes (or the error) of a custom format's encoding.
pub enum FormattedResponse {
    OpenAI(OpenAIChatResponse),
    Anthropic(AnthropicResponse),
    Ollama(OllamaResponse),
    Encoded(Result<Vec<u8>, String>),
}

/// The content of a formatted response.
pub enum FormattedResponseView {
    OpenAI(ChatResponseView),
    Anthropic(AnthropicResponseView),
    Ollama(OllamaResponseView),
    Encoded(Result<Seq<u8>, Seq<char>>),
}

impl View for FormattedResponse {
    type V = FormattedResponseView;

    open spec fn view(&self) -> FormattedResponseView {
        match self {
            FormattedResponse::OpenAI(r) => FormattedResponseView::OpenAI(r@),
            FormattedResponse::Anthropic(r) => FormattedResponseView::Anthropic(r@),
            FormattedResponse::Ollama(r) => FormattedResponseView::Ollama(r@),
            FormattedResponse::Encoded(Ok(b)) => FormattedResponseView::Encoded(Ok(b@)),
            FormattedResponse::Encoded(Err(e)) => FormattedResponseView::Encoded(Err(e@)),
        }
    }
}

/// Trait for formatting responses to different output formats. Encoding the formatted
/// response as JSON bytes is serde's work and is done by the caller.
pub trait ResponseFormatter {
    /// The name under which the formatter is registered.
    spec fn spec_name(&self) -> Seq<char>;

    /// Whether `out` is a formatting of `response` by this formatter.
    spec fn formats_as(&self, response: &CanonicalChatResponse, out: &FormattedResponse) -> bool;

    /// Name of this formatter (e.g., "anthropic", "openai")
    fn name(&self) -> (r: &'static str)
        ensures
            r@ == self.spec_name(),
    ;

    /// Format a canonical response to the output format
    fn format(&self, response: &CanonicalChatResponse) -> (r: FormattedResponse)
        ensures
            self.formats_as(response, &r),
    ;
}

/// The JSON pointer to the "images" member of the `i`-th message.
pub open spec fn images_pointer(i: nat) -> Seq<char> {
    "/messages/"@ + decimal(i) + "/images"@
}

/// A JSON body with both a "model" and a "messages" member.
pub open spec fn openai_accepts(body: Seq<u8>) -> bool {
    json_pointer_kind(body, "/model"@) is Some && json_pointer_kind(body, "/messages"@) is Some
}

/// An authorization header that mentions "anthropic" in any letter case, or a JSON body
/// with both a "max_tokens" and a "messages" member.
pub open spec fn anthropic_accepts(headers: RequestHeaders, body: Seq<u8>) -> bool {
    (match header_text(headers.entries@, "authorization"@) {
        Some(a) => occurs_in("anthropic"@, lower_text(a)),
        None => false,
    }) || (json_pointer_kind(body, "/max_tokens"@) is Some && json_pointer_kind(
        body,
        "/messages"@,
    ) is Some)
}

/// A JSON body with a "prompt" member, or whose "messages" array holds an element with an
/// "images" member.
pub open spec fn ollama_accepts(body: Seq<u8>) -> bool {
    json_pointer_kind(body, "/prompt"@) is Some || match json_pointer_kind(body, "/messages"@) {
        Some(JsonKind::Array(n)) => exists|i: nat|
            i < n && (#[trigger] json_pointer_kind(body, images_pointer(i))) is Some,
        _ => false,
    }
}

// ============== OpenAI Format ==============

#[derive(Clone, Copy, Debug)]
pub struct OpenAIInterpreter;

impl RequestInterpreter for OpenAIInterpreter {
    open spec fn spec_name(&self) -> Seq<char> {
        "openai"@
    }

    open spec fn accepts(&self, headers: RequestHeaders, body: &[u8]) -> bool {
        openai_accepts(body@)
    }

    fn name(&self) -> (r: &'static str) {
        proof {
            reveal_strlit("openai");
        }
        "openai"
    }

    fn can_interpret(&self, _headers: &RequestHeaders, body: &[u8]) -> (r: bool) {
        // OpenAI format is the default - it can parse most valid chat requests
        // Check if it has required fields
        proof {
            reveal_strlit("/model");
            reveal_strlit("/messages");
        }
        json_kind_at(body, "/model").is_some() && json_kind_at(body, "/messages").is_some()
    }
}

#[derive(Clone, Copy, Debug)]
pub struct OpenAIFormatter;

impl ResponseFormatter for OpenAIFormatter {
    open spec fn spec_name(&self) -> Seq<char> {
        "openai"@
    }

    open spec fn formats_as(&self, response: &CanonicalChatResponse, out: &FormattedResponse) -> bool {
        out@ == FormattedResponseView::OpenAI(response@)
    }

    fn name(&self) -> (r: &'static str) {
        proof {
            reveal_strlit("openai");
        }
        "openai"
    }

    fn format(&self, response: &CanonicalChatResponse) -> (r: FormattedResponse) {
        FormattedResponse::OpenAI(OpenAIChatResponse::from_canonical(response.duplicate()))
    }
}

// ============== Anthropic Format ==============

#[derive(Clone, Copy, Debug)]
pub struct AnthropicInterpreter;

impl RequestInterpreter for AnthropicInterpreter {
    open spec fn spec_name(&self) -> Seq<char> {
        "anthropic"@
    }

    open spec fn accepts(&self, headers: RequestHeaders, body: &[u8]) -> bool {
        anthropic_accepts(headers, body@)
    }

    fn name(&self) -> (r: &'static str) {
        proof {
            reveal_strlit("anthropic");
        }
        "anthropic"
    }

    fn can_interpret(&self, headers: &RequestHeaders, body: &[u8]) -> (r: bool) {
        proof {
            reveal_strlit("authorization");
            reveal_strlit("anthropic");
            reveal_strlit("/max_tokens");
            reveal_strlit("/messages");
        }
        // Check for anthropic-specific headers
        if let Some(auth_str) = headers.get_text("authorization") {
            let lower = to_lower(auth_str.as_str());
            if contains(lower.as_str(), "anthropic") {
                return true;
            }
        }
        // Anthropic uses "max_tokens" as required field
        json_kind_at(body, "/max_tokens").is_some() && json_kind_at(body, "/messages").is_some()
    }
}

#[derive(Clone, Copy, Debug)]
pub struct AnthropicFormatter;

impl ResponseFormatter for AnthropicFormatter {
    open spec fn spec_name(&self) -> Seq<char> {
        "anthropic"@
    }

    open spec fn formats_as(&self, response: &CanonicalChatResponse, out: &FormattedResponse) -> bool {
        out@ == FormattedResponseView::Anthropic(crate::views::anthropic_of(response@))
    }

    fn name(&self) -> (r: &'static str) {
        proof {
            reveal_strlit("anthropic");
        }
        "anthropic"
    }

    fn format(&self, response: &CanonicalChatResponse) -> (r: FormattedResponse) {
        FormattedResponse::Anthropic(AnthropicResponse::from_canonical(response.duplicate()))
    }
}

// ============== Ollama Format ==============

#[derive(Clone, Copy, Debug)]
pub struct OllamaInterpreter;

impl RequestInterpreter for OllamaInterpreter {
    open spec fn spec_name(&self) -> Seq<char> {
        "ollama"@
    }

    open spec fn accepts(&self, headers: RequestHeaders, body: &[u8]) -> bool {
        ollama_accepts(body@)
    }

    fn name(&self) -> (r: &'static str) {
        proof {
            reveal_strlit("ollama");
        }
        "ollama"
    }

    fn can_interpret(&self, _headers: &RequestHeaders, body: &[u8]) -> (r: bool) {
        proof {
            reveal_strlit("/prompt");
            reveal_strlit("/messages");
            reveal_strlit("/messages/");
            reveal_strlit("/images");
        }
        // Has prompt field (non-chat mode)
        if json_kind_at(body, "/prompt").is_some() {
            return true;
        }
        // Check for ollama-specific fields like "images" in messages
        if let Some(JsonKind::Array(n)) = json_kind_at(body, "/messages") {
            let mut i: usize = 0;
            while i < n
                invariant
                    i <= n,
                    json_pointer_kind(body@, "/messages"@) == Some(JsonKind::Array(n)),
                    forall|j: nat| j < i ==> (#[trigger] json_pointer_kind(body@, images_pointer(j))) is None,
                decreases n - i,
            {
                let digits = decimal_string(i);
                let head = concat("/messages/", digits.as_str());
                let pointer = concat(head.as_str(), "/images");
                assert(pointer@ == images_pointer(i as nat));
                if json_kind_at(body, pointer.as_str()).is_some() {
                    return true;
                }
                i = i + 1;
            }
        }
        false
    }
}

#[derive(Clone, Copy, Debug)]
pub struct OllamaFormatter;

impl ResponseFormatter for OllamaFormatter {
    open spec fn spec_name(&self) -> Seq<char> {
        "ollama"@
    }

    /// The Ollama formatting stamps the response with the system clock's time of formatting.
    open spec fn formats_as(&self, response: &CanonicalChatResponse, out: &FormattedResponse) -> bool {
        exists|t: Option<Seq<char>>|
            clock_stamp(t) && out@ == FormattedResponseView::Ollama(#[trigger] ollama_response_of(response@, t))
    }

    fn name(&self) -> (r: &'static str) {
        proof {
            reveal_strlit("ollama");
        }
        "ollama"
    }

    fn format(&self, response: &CanonicalChatResponse) -> (r: FormattedResponse) {
        let resp = OllamaResponse::from_canonical(response);
        let r = FormattedResponse::Ollama(resp);
        assert(r@ == FormattedResponseView::Ollama(ollama_response_of(response@, resp@.created_at)));
        r
    }
}

/// One of the request interpreters that the registry can hold: a built-in one, or one that
/// the library's user supplies.
#[derive(Clone, Copy)]
pub enum Interpreter {
    OpenAI(OpenAIInterpreter),
    Anthropic(AnthropicInterpreter),
    Ollama(OllamaInterpreter),
    Custom(&'static dyn CustomInterpreter),
}

impl RequestInterpreter for Interpreter {
    open spec fn spec_name(&self) -> Seq<char> {
        match self {
            Interpreter::OpenAI(i) => i.spec_name(),
            Interpreter::Anthropic(i) => i.spec_name(),
            Interpreter::Ollama(i) => i.spec_name(),
            Interpreter::Custom(i) => i.format_name()@,
        }
    }

    open spec fn accepts(&self, headers: RequestHeaders, body: &[u8]) -> bool {
        match self {
            Interpreter::OpenAI(i) => i.accepts(headers, body),
            Interpreter::Anthropic(i) => i.accepts(headers, body),
            Interpreter::Ollama(i) => i.accepts(headers, body),
            Interpreter::Custom(i) => i.takes(headers, body),
        }
    }

    fn name(&self) -> (r: &'static str) {
        match self {
            Interpreter::OpenAI(i) => i.name(),
            Interpreter::Anthropic(i) => i.name(),
            Interpreter::Ollama(i) => i.name(),
            Interpreter::Custom(i) => i.name(),
        }
    }

    fn can_interpret(&self, headers: &RequestHeaders, body: &[u8]) -> (r: bool) {
        match self {
            Interpreter::OpenAI(i) => i.can_interpret(headers, body),
            Interpreter::Anthropic(i) => i.can_interpret(headers, body),
            Interpreter::Ollama(i) => i.can_interpret(headers, body),
            Interpreter::Custom(i) => i.can_interpret(headers, body),
        }
    }
}

/// One of the response formatters that the registry can hold: a built-in one, or one that
/// the library's user supplies.
#[derive(Clone, Copy)]
pub enum Formatter {
    OpenAI(OpenAIFormatter),
    Anthropic(AnthropicFormatter),
    Ollama(OllamaFormatter),
    Custom(&'static dyn CustomFormatter),
}

impl ResponseFormatter for Formatter {
    open spec fn spec_name(&self) -> Seq<char> {
        match self {
            Formatter::OpenAI(f) => f.spec_name(),
            Formatter::Anthropic(f) => f.spec_name(),
            Formatter::Ollama(f) => f.spec_name(),
            Formatter::Custom(f) => f.format_name()@,
        }
    }

    open spec fn formats_as(&self, response: &CanonicalChatResponse, out: &FormattedResponse) -> bool {
        match self {
            Formatter::OpenAI(f) => f.formats_as(response, out),
            Formatter::Anthropic(f) => f.formats_as(response, out),
            Formatter::Ollama(f) => f.formats_as(response, out),
            Formatter::Custom(f) => out matches FormattedResponse::Encoded(e) && f.encodes(response, e),
        }
    }

    fn name(&self) -> (r: &'static str) {
        match self {
            Formatter::OpenAI(f) => f.name(),
            Formatter::Anthropic(f) => f.name(),
            Formatter::Ollama(f) => f.name(),
            Formatter::Custom(f) => f.name(),
        }
    }

    fn format(&self, response: &CanonicalChatResponse) -> (r: FormattedResponse) {
        match self {
            Formatter::OpenAI(f) => f.format(response),
            Formatter::Anthropic(f) => f.format(response),
            Formatter::Ollama(f) => f.format(response),
            Formatter::Custom(f) => FormattedResponse::Encoded(f.format(response)),
        }
    }
}

/// An entry other than the default "openai" one whose interpreter takes the request.
pub open spec fn other_taker(headers: RequestHeaders, body: &[u8]) -> spec_fn((String, Interpreter)) -> bool {
    |e: (String, Interpreter)| e.0@ != "openai"@ && e.1.accepts(headers, body)
}

/// An entry whose name occurs in the lower-cased user agent `ua` and whose interpreter takes
/// the request.
pub open spec fn agent_taker(ua: Seq<char>, headers: RequestHeaders, body: &[u8]) -> spec_fn((String, Interpreter)) -> bool {
    |e: (String, Interpreter)| occurs_in(e.0@, lower_text(ua)) && e.1.accepts(headers, body)
}

/// The interpreter that a request is handed to, among `entries` (see
/// [`FormatRegistry::detect_interpreter`]).
pub open spec fn detect(entries: Seq<(String, Interpreter)>, headers: RequestHeaders, body: &[u8]) -> Option<Interpreter> {
    let by_source = match header_text(headers.entries@, "x-source"@) {
        Some(s) => match lookup(entries, lower_text(s)) {
            Some(i) => if i.accepts(headers, body) {
                Some(i)
            } else {
                None
            },
            None => None,
        },
        None => None,
    };
    let by_agent = match header_text(headers.entries@, "user-agent"@) {
        Some(ua) => first_where(entries, agent_taker(ua, headers, body)),
        None => None,
    };
    let any = first_where(entries, other_taker(headers, body));
    if by_source is Some {
        by_source
    } else if by_agent is Some {
        by_agent
    } else if any is Some {
        any
    } else {
        lookup(entries, "openai"@)
    }
}

/// Registry of format interpreters and formatters, each under its own name.
pub struct FormatRegistry {
    interpreters: Vec<(String, Interpreter)>,
    formatters: Vec<(String, Formatter)>,
}

/// The interpreter's name, as a spec function value.
pub open spec fn interpreter_name(i: Interpreter) -> Seq<char> {
    i.spec_name()
}

/// The formatter's name, as a spec function value.
pub open spec fn formatter_name(f: Formatter) -> Seq<char> {
    f.spec_name()
}

impl FormatRegistry {
    /// The registered interpreters with their names, in registration order.
    pub closed spec fn interpreter_entries(&self) -> Seq<(String, Interpreter)> {
        self.interpreters@
    }

    /// The registered formatters with their names, in registration order.
    pub closed spec fn formatter_entries(&self) -> Seq<(String, Formatter)> {
        self.formatters@
    }

    /// Each interpreter and formatter is filed once, under its own name.
    #[verifier::type_invariant]
    closed spec fn filed(&self) -> bool {
        &&& well_filed(self.interpreters@, |i: Interpreter| i.spec_name())
        &&& well_filed(self.formatters@, |f: Formatter| f.spec_name())
    }

    /// A registry with the built-in interpreters and formatters: "openai", "anthropic"
    /// and "ollama", registered in that order.
    pub fn new() -> (r: Self)
        ensures
            entry_names(r.interpreter_entries()) == seq!["openai"@, "anthropic"@, "ollama"@],
            entry_names(r.formatter_entries()) == seq!["openai"@, "anthropic"@, "ollama"@],
            lookup(r.interpreter_entries(), "openai"@) == Some(Interpreter::OpenAI(OpenAIInterpreter)),
            lookup(r.interpreter_entries(), "anthropic"@) == Some(Interpreter::Anthropic(AnthropicInterpreter)),
            lookup(r.interpreter_entries(), "ollama"@) == Some(Interpreter::Ollama(OllamaInterpreter)),
            lookup(r.formatter_entries(), "openai"@) == Some(Formatter::OpenAI(OpenAIFormatter)),
            lookup(r.formatter_entries(), "anthropic"@) == Some(Formatter::Anthropic(AnthropicFormatter)),
            lookup(r.formatter_entries(), "ollama"@) == Some(Formatter::Ollama(OllamaFormatter)),
    {
        let mut registry = Self { interpreters: Vec::new(), formatters: Vec::new() };
        // Register built-in formats
        registry.register_interpreter(Interpreter::OpenAI(OpenAIInterpreter));
        registry.register_interpreter(Interpreter::Anthropic(AnthropicInterpreter));
        registry.register_interpreter(Interpreter::Ollama(OllamaInterpreter));
        registry.register_formatter(Formatter::OpenAI(OpenAIFormatter));
        registry.register_formatter(Formatter::Anthropic(AnthropicFormatter));
        registry.register_formatter(Formatter::Ollama(OllamaFormatter));
        proof {
            reveal_strlit("openai");
            reveal_strlit("anthropic");
            reveal_strlit("ollama");
            assert("openai"@.len() != "anthropic"@.len());
            assert("openai"@[1] != "ollama"@[1]);
            assert("anthropic"@.len() != "ollama"@.len());
            assert(entry_names(registry.interpreter_entries()) =~= seq!["openai"@, "anthropic"@, "ollama"@]);
            assert(entry_names(registry.formatter_entries()) =~= seq!["openai"@, "anthropic"@, "ollama"@]);
        }
        registry
    }

    /// Files an interpreter under its name, replacing one already filed under that name.
    pub fn register_interpreter(&mut self, interpreter: Interpreter)
        ensures
            forall|n: Seq<char>|
                #[trigger] lookup(final(self).interpreter_entries(), n) == if n == interpreter.spec_name() {
                    Some(interpreter)
                } else {
                    lookup(old(self).interpreter_entries(), n)
                },
            entry_names(final(self).interpreter_entries()) == if entry_names(
                old(self).interpreter_entries(),
            ).contains(interpreter.spec_name()) {
                entry_names(old(self).interpreter_entries())
            } else {
                entry_names(old(self).interpreter_entries()).push(interpreter.spec_name())
            },
            final(self).formatter_entries() == old(self).formatter_entries(),
    {
        proof {
            use_type_invariant(&*self);
        }
        let name = owned(interpreter.name());
        let mut entries: Vec<(String, Interpreter)> = Vec::new();
        std::mem::swap(&mut entries, &mut self.interpreters);
        let ghost before = entries@;
        assert(well_filed(before, |x: Interpreter| x.spec_name()));
        file_under(&mut entries, name, interpreter);
        proof {
            assert forall|k: int| 0 <= k < entries@.len() implies #[trigger] entries@[k].0@ == entries@[k].1.spec_name() by {
                if entries@[k] != (name, interpreter) {
                    assert(entries@[k] == before[k]);
                    assert(before[k].0@ == before[k].1.spec_name());
                }
            }
        }
        self.interpreters = entries;
    }

    /// Files a formatter under its name, replacing one already filed under that name.
    pub fn register_formatter(&mut self, formatter: Formatter)
        ensures
            forall|n: Seq<char>|
                #[trigger] lookup(final(self).formatter_entries(), n) == if n == formatter.spec_name() {
                    Some(formatter)
                } else {
                    lookup(old(self).formatter_entries(), n)
                },
            entry_names(final(self).formatter_entries()) == if entry_names(
                old(self).formatter_entries(),
            ).contains(formatter.spec_name()) {
                entry_names(old(self).formatter_entries())
            } else {
                entry_names(old(self).formatter_entries()).push(formatter.spec_name())
            },
            final(self).interpreter_entries() == old(self).interpreter_entries(),
    {
        proof {
            use_type_invariant(&*self);
        }
        let name = owned(formatter.name());
        let mut entries: Vec<(String, Formatter)> = Vec::new();
        std::mem::swap(&mut entries, &mut self.formatters);
        let ghost before = entries@;
        assert(well_filed(before, |x: Formatter| x.spec_name()));
        file_under(&mut entries, name, formatter);
        proof {
            assert forall|k: int| 0 <= k < entries@.len() implies #[trigger] entries@[k].0@ == entries@[k].1.spec_name() by {
                if entries@[k] != (name, formatter) {
                    assert(entries@[k] == before[k]);
                    assert(before[k].0@ == before[k].1.spec_name());
                }
            }
        }
        self.formatters = entries;
    }

    /// Get the number of registered interpreters
    pub fn interpreter_count(&self) -> (r: usize)
        ensures
            r == self.interpreter_entries().len(),
    {
        self.interpreters.len()
    }

    /// Get the number of registered formatters
    pub fn formatter_count(&self) -> (r: usize)
        ensures
            r == self.formatter_entries().len(),
    {
        self.formatters.len()
    }

    /// Get list of registered interpreter names
    pub fn interpreter_names(&self) -> (r: Vec<&str>)
        ensures
            r@.map_values(|s: &str| s@) == entry_names(self.interpreter_entries()),
    {
        let mut out: Vec<&str> = Vec::new();
        let mut i: usize = 0;
        while i < self.interpreters.len()
            invariant
                i <= self.interpreters.len(),
                out@.map_values(|s: &str| s@) == entry_names(self.interpreters@.subrange(0, i as int)),
            decreases self.interpreters.len() - i,
        {
            out.push(self.interpreters[i].0.as_str());
            assert(entry_names(self.interpreters@.subrange(0, i + 1)) =~= entry_names(self.interpreters@.subrange(0, i as int)).push(self.interpreters@[i as int].0@));
            assert(out@.map_values(|s: &str| s@) =~= entry_names(self.interpreters@.subrange(0, i as int)).push(self.interpreters@[i as int].0@));
            i = i + 1;
        }
        assert(self.interpreters@.subrange(0, i as int) =~= self.interpreters@);
        out
    }

    /// Get list of registered formatter names
    pub fn formatter_names(&self) -> (r: Vec<&str>)
        ensures
            r@.map_values(|s: &str| s@) == entry_names(self.formatter_entries()),
    {
        let mut out: Vec<&str> = Vec::new();
        let mut i: usize = 0;
        while i < self.formatters.len()
            invariant
                i <= self.formatters.len(),
                out@.map_values(|s: &str| s@) == entry_names(self.formatters@.subrange(0, i as int)),
            decreases self.formatters.len() - i,
        {
            out.push(self.formatters[i].0.as_str());
            assert(entry_names(self.formatters@.subrange(0, i + 1)) =~= entry_names(self.formatters@.subrange(0, i as int)).push(self.formatters@[i as int].0@));
            assert(out@.map_values(|s: &str| s@) =~= entry_names(self.formatters@.subrange(0, i as int)).push(self.formatters@[i as int].0@));
            i = i + 1;
        }
        assert(self.formatters@.subrange(0, i as int) =~= self.formatters@);
        out
    }

    /// Get formatter by name
    pub fn get_formatter(&self, name: &str) -> (r: Option<Formatter>)
        ensures
            r == lookup(self.formatter_entries(), name@),
            r matches Some(x) ==> x.spec_name() == name@,
    {
        proof {
            use_type_invariant(self);
        }
        match position(&self.formatters, name) {
            Some(k) => {
                proof {
                    lemma_lookup_index(self.formatters@, name@, k as int);
                    assert(self.formatters@[k as int].0@ == self.formatters@[k as int].1.spec_name());
                }
                Some(self.formatters[k].1)
            },
            None => {
                proof {
                    lemma_lookup_absent(self.formatters@, name@);
                }
                None
            },
        }
    }

    /// Detect which interpreter should handle this request: the interpreter named by the
    /// "x-source" header (in lower case), if it takes the request; else the first, in
    /// registration order, whose name occurs in the lower-cased "user-agent" header and that
    /// takes the request; else the first other than "openai" that takes the request, since
    /// the OpenAI format is the default that most bodies fit; else the one named "openai", if
    /// registered.
    #[verifier::loop_isolation(false)]
    pub fn detect_interpreter(&self, headers: &RequestHeaders, body: &[u8]) -> (r: Option<Interpreter>)
        ensures
            r == detect(self.interpreter_entries(), *headers, body),
    {
        proof {
            reveal_strlit("x-source");
            reveal_strlit("user-agent");
            reveal_strlit("openai");
        }
        let ghost entries = self.interpreters@;
        // First check explicit headers
        if let Some(source_str) = headers.get_text("x-source") {
            let source_lower = to_lower(source_str.as_str());
            if let Some(interp) = self.get_interpreter(source_lower.as_str()) {
                if interp.can_interpret(headers, body) {
                    return Some(interp);
                }
            }
        }
        // Check User-Agent
        if let Some(ua_str) = headers.get_text("user-agent") {
            let ua_lower = to_lower(ua_str.as_str());
            let ghost pred = agent_taker(ua_str@, *headers, body);
            let mut i: usize = 0;
            assert(entries.skip(0) =~= entries);
            while i < self.interpreters.len()
                invariant
                    i <= self.interpreters.len(),
                    entries == self.interpreters@,
                    ua_lower@ == lower_text(ua_str@),
                    first_where(entries, pred) == first_where(entries.skip(i as int), pred),
                decreases self.interpreters.len() - i,
            {
                assert(entries.skip(i as int).drop_first() =~= entries.skip(i + 1));
                assert(entries.skip(i as int)[0] == entries[i as int]);
                let interp = self.interpreters[i].1;
                let named = contains(ua_lower.as_str(), self.interpreters[i].0.as_str());
                if named && interp.can_interpret(headers, body) {
                    assert(pred(entries[i as int]));
                    return Some(interp);
                }
                assert(!pred(entries[i as int]));
                i = i + 1;
            }
        }
        // Try each interpreter other than the default one
        let ghost pred = other_taker(*headers, body);
        let mut i: usize = 0;
        assert(entries.skip(0) =~= entries);
        while i < self.interpreters.len()
            invariant
                i <= self.interpreters.len(),
                entries == self.interpreters@,
                first_where(entries, pred) == first_where(entries.skip(i as int), pred),
            decreases self.interpreters.len() - i,
        {
            assert(entries.skip(i as int).drop_first() =~= entries.skip(i + 1));
            assert(entries.skip(i as int)[0] == entries[i as int]);
            let interp = self.interpreters[i].1;
            if !same_text(self.interpreters[i].0.as_str(), "openai") && interp.can_interpret(headers, body) {
                assert(pred(entries[i as int]));
                return Some(interp);
            }
            assert(!pred(entries[i as int]));
            i = i + 1;
        }
        // Default to OpenAI
        self.get_interpreter("openai")
    }

    /// Get interpreter by name
    pub fn get_interpreter(&self, name: &str) -> (r: Option<Interpreter>)
        ensures
            r == lookup(self.interpreter_entries(), name@),
            r matches Some(x) ==> x.spec_name() == name@,
    {
        proof {
            use_type_invariant(self);
        }
        match position(&self.interpreters, name) {
            Some(k) => {
                proof {
                    lemma_lookup_index(self.interpreters@, name@, k as int);
                    assert(self.interpreters@[k as int].0@ == self.interpreters@[k as int].1.spec_name());
                }
                Some(self.interpreters[k].1)
            },
            None => {
                proof {
                    lemma_lookup_absent(self.interpreters@, name@);
                }
                None
            },
        }
    }
}

impl Default for FormatRegistry {
    fn default() -> (r: Self)
        ensures
            entry_names(r.interpreter_entries()) == seq!["openai"@, "anthropic"@, "ollama"@],
            entry_names(r.formatter_entries()) == seq!["openai"@, "anthropic"@, "ollama"@],
            lookup(r.interpreter_entries(), "openai"@) == Some(Interpreter::OpenAI(OpenAIInterpreter)),
            lookup(r.interpreter_entries(), "anthropic"@) == Some(Interpreter::Anthropic(AnthropicInterpreter)),
            lookup(r.interpreter_entries(), "ollama"@) == Some(Interpreter::Ollama(OllamaInterpreter)),
            lookup(r.formatter_entries(), "openai"@) == Some(Formatter::OpenAI(OpenAIFormatter)),
            lookup(r.formatter_entries(), "anthropic"@) == Some(Formatter::Anthropic(AnthropicFormatter)),
            lookup(r.formatter_entries(), "ollama"@) == Some(Formatter::Ollama(OllamaFormatter)),
    {
        Self::new()
    }
}

/// If `pred` holds of some entry, `first_where` finds a value for which it holds;
/// otherwise it finds nothing.
proof fn lemma_first_where<T>(entries: Seq<(String, T)>, pred: spec_fn((String, T)) -> bool)
    ensures
        match first_where(entries, pred) {
            Some(v) => exists|k: int| 0 <= k < entries.len() && entries[k].1 == v && pred(#[trigger] entries[k]),
            None => forall|k: int| 0 <= k < entries.len() ==> !pred(#[trigger] entries[k]),
        },
    decreases entries.len(),
{
    if entries.len() > 0 {
        lemma_first_where(entries.drop_first(), pred);
        if !pred(entries[0]) {
            match first_where(entries.drop_first(), pred) {
                Some(v) => {
                    let k = choose|k: int| 0 <= k < entries.drop_first().len() && entries.drop_first()[k].1 == v && pred(#[trigger] entries.drop_first()[k]);
                    assert(entries[k + 1] == entries.drop_first()[k]);
                },
                None => {
                    assert forall|k: int| 0 <= k < entries.len() implies !pred(#[trigger] entries[k]) by {
                        if k > 0 {
                            assert(entries[k] == entries.drop_first()[k - 1]);
                        }
                    }
                },
            }
        } else {
            assert(pred(entries[0]));
        }
    }
}

/// A registered name's lookup finds a value filed under that name.
proof fn lemma_lookup_found<T>(entries: Seq<(String, T)>, name: Seq<char>)
    ensures
        lookup(entries, name) matches Some(v) ==> exists|k: int| 0 <= k < entries.len() && #[trigger] entries[k].1 == v && entries[k].0@ == name,
    decreases entries.len(),
{
    if entries.len() > 0 && entries[0].0@ != name {
        lemma_lookup_found(entries.drop_first(), name);
        if lookup(entries, name) is Some {
            let v = lookup(entries, name)->0;
            let k = choose|k: int| 0 <= k < entries.drop_first().len() && #[trigger] entries.drop_first()[k].1 == v && entries.drop_first()[k].0@ == name;
            assert(entries[k + 1] == entries.drop_first()[k]);
        }
    }
}

/// Format detection picks a registered interpreter that takes the request whenever one
/// other than "openai" does; only where none does, it falls back to the interpreter
/// registered as "openai", and it picks nothing only where, besides, none is registered as
/// "openai".
pub proof fn law_detection_picks_a_taker(registry: FormatRegistry, headers: RequestHeaders, body: &[u8])
    ensures
        ({
            let entries = registry.interpreter_entries();
            let takers = exists|k: int|
                0 <= k < entries.len() && (#[trigger] entries[k]).0@ != "openai"@ && entries[k].1.accepts(headers, body);
            match detect(entries, headers, body) {
                Some(i) => (exists|k: int| 0 <= k < entries.len() && #[trigger] entries[k].1 == i)
                    && (i.accepts(headers, body) || (!takers && lookup(entries, "openai"@) == Some(i))),
                None => !takers && lookup(entries, "openai"@) is None,
            }
        }),
{
    let entries = registry.interpreter_entries();
    let any_pred = other_taker(headers, body);
    lemma_first_where(entries, any_pred);
    lemma_lookup_found(entries, "openai"@);
    match header_text(headers.entries@, "x-source"@) {
        Some(s) => lemma_lookup_found(entries, lower_text(s)),
        None => {},
    }
    match header_text(headers.entries@, "user-agent"@) {
        Some(ua) => lemma_first_where(entries, agent_taker(ua, headers, body)),
        None => {},
    }
    match first_where(entries, any_pred) {
        Some(v) => {},
        None => {
            assert forall|k: int| 0 <= k < entries.len() && (#[trigger] entries[k]).0@ != "openai"@ implies !entries[k].1.accepts(headers, body) by {
                assert(!any_pred(entries[k]));
            }
        },
    }
}

/// With the built-in interpreters and neither an "x-source" nor a "user-agent" header, a
/// body that the Anthropic format takes (one with "max_tokens" and "messages") is read as
/// Anthropic; else one that the Ollama format takes (a "prompt", or images in a message) as
/// Ollama; every other body as OpenAI.
pub proof fn law_builtin_detection(registry: FormatRegistry, headers: RequestHeaders, body: &[u8])
    requires
        entry_names(registry.interpreter_entries()) == seq!["openai"@, "anthropic"@, "ollama"@],
        lookup(registry.interpreter_entries(), "openai"@) == Some(Interpreter::OpenAI(OpenAIInterpreter)),
        lookup(registry.interpreter_entries(), "anthropic"@) == Some(Interpreter::Anthropic(AnthropicInterpreter)),
        lookup(registry.interpreter_entries(), "ollama"@) == Some(Interpreter::Ollama(OllamaInterpreter)),
        header_text(headers.entries@, "x-source"@) is None,
        header_text(headers.entries@, "user-agent"@) is None,
    ensures
        detect(registry.interpreter_entries(), headers, body) == if anthropic_accepts(headers, body@) {
            Some(Interpreter::Anthropic(AnthropicInterpreter))
        } else if ollama_accepts(body@) {
            Some(Interpreter::Ollama(OllamaInterpreter))
        } else {
            Some(Interpreter::OpenAI(OpenAIInterpreter))
        },
{
    reveal_strlit("openai");
    reveal_strlit("anthropic");
    reveal_strlit("ollama");
    let entries = registry.interpreter_entries();
    assert(entries.len() == 3) by {
        assert(entry_names(entries).len() == entries.len());
    }
    assert(entries[0].0@ == "openai"@ && entries[1].0@ == "anthropic"@ && entries[2].0@ == "ollama"@) by {
        assert(entry_names(entries)[0] == entries[0].0@);
        assert(entry_names(entries)[1] == entries[1].0@);
        assert(entry_names(entries)[2] == entries[2].0@);
    }
    assert("openai"@ != "anthropic"@) by {
        assert("openai"@.len() != "anthropic"@.len());
    }
    assert("openai"@ != "ollama"@) by {
        assert("openai"@[1] != "ollama"@[1]);
    }
    assert("anthropic"@ != "ollama"@) by {
        assert("anthropic"@.len() != "ollama"@.len());
    }
    lemma_lookup_index(entries, "anthropic"@, 1);
    lemma_lookup_index(entries, "ollama"@, 2);
    let pred = other_taker(headers, body);
    let rest = entries.drop_first();
    assert(rest[0] == entries[1] && rest[1] == entries[2]);
    assert(rest.drop_first()[0] == entries[2]);
    assert(rest.drop_first().drop_first().len() == 0);
    assert(first_where(rest.drop_first().drop_first(), pred) is None);
    assert(!pred(entries[0]));
    assert(first_where(entries, pred) == first_where(rest, pred));
    assert(pred(rest[0]) == anthropic_accepts(headers, body@));
    assert(pred(rest.drop_first()[0]) == ollama_accepts(body@));
    assert(first_where(rest.drop_first(), pred) == if ollama_accepts(body@) {
        Some(Interpreter::Ollama(OllamaInterpreter))
    } else {
        None
    });
    assert(lookup(entries, "openai"@) == Some(Interpreter::OpenAI(OpenAIInterpreter)));
}

/// `first_where` finds the entry at `k` when `pred` holds there and at no earlier entry.
proof fn lemma_first_where_at<T>(entries: Seq<(String, T)>, pred: spec_fn((String, T)) -> bool, k: int)
    requires
        0 <= k < entries.len(),
        pred(entries[k]),
        forall|j: int| 0 <= j < k ==> !pred(#[trigger] entries[j]),
    ensures
        first_where(entries, pred) == Some(entries[k].1),
    decreases k,
{
    if k > 0 {
        assert(!pred(entries[0]));
        let rest = entries.drop_first();
        assert forall|j: int| 0 <= j < k - 1 implies !pred(#[trigger] rest[j]) by {
            assert(rest[j] == entries[j + 1]);
        }
        assert(rest[k - 1] == entries[k]);
        lemma_first_where_at(rest, pred, k - 1);
    }
}

/// The "x-source" header decides first: where it names, in any letter case, a registered
/// interpreter that takes the request, that interpreter is picked, whatever the user agent
/// and whichever other interpreters take the body.
pub proof fn law_source_header_decides(
    entries: Seq<(String, Interpreter)>,
    headers: RequestHeaders,
    body: &[u8],
    source: Seq<char>,
    interpreter: Interpreter,
)
    requires
        header_text(headers.entries@, "x-source"@) == Some(source),
        lookup(entries, lower_text(source)) == Some(interpreter),
        interpreter.accepts(headers, body),
    ensures
        detect(entries, headers, body) == Some(interpreter),
{
}

/// The user agent decides next: where the "x-source" header picks nothing, the first
/// registered interpreter, in registration order, whose name occurs in the lower-cased user
/// agent and that takes the request is picked, whichever other interpreters take the body.
pub proof fn law_agent_decides_before_body(
    entries: Seq<(String, Interpreter)>,
    headers: RequestHeaders,
    body: &[u8],
    agent: Seq<char>,
    k: int,
)
    requires
        match header_text(headers.entries@, "x-source"@) {
            Some(s) => match lookup(entries, lower_text(s)) {
                Some(i) => !i.accepts(headers, body),
                None => true,
            },
            None => true,
        },
        header_text(headers.entries@, "user-agent"@) == Some(agent),
        0 <= k < entries.len(),
        occurs_in(entries[k].0@, lower_text(agent)),
        entries[k].1.accepts(headers, body),
        forall|j: int|
            0 <= j < k ==> !(occurs_in((#[trigger] entries[j]).0@, lower_text(agent)) && entries[j].1.accepts(
                headers,
                body,
            )),
    ensures
        detect(entries, headers, body) == Some(entries[k].1),
{
    let pred = agent_taker(agent, headers, body);
    assert forall|j: int| 0 <= j < k implies !pred(#[trigger] entries[j]) by {}
    lemma_first_where_at(entries, pred, k);
}

/// Only then does the body decide: where neither header picks an interpreter, the first
/// registered interpreter other than "openai" that takes the request is picked, before the
/// "openai" default.
pub proof fn law_body_decides_before_default(
    entries: Seq<(String, Interpreter)>,
    headers: RequestHeaders,
    body: &[u8],
    k: int,
)
    requires
        match header_text(headers.entries@, "x-source"@) {
            Some(s) => match lookup(entries, lower_text(s)) {
                Some(i) => !i.accepts(headers, body),
                None => true,
            },
            None => true,
        },
        match header_text(headers.entries@, "user-agent"@) {
            Some(ua) => forall|j: int|
                0 <= j < entries.len() ==> !(occurs_in((#[trigger] entries[j]).0@, lower_text(ua))
                    && entries[j].1.accepts(headers, body)),
            None => true,
        },
        0 <= k < entries.len(),
        entries[k].0@ != "openai"@,
        entries[k].1.accepts(headers, body),
        forall|j: int|
            0 <= j < k ==> !((#[trigger] entries[j]).0@ != "openai"@ && entries[j].1.accepts(headers, body)),
    ensures
        detect(entries, headers, body) == Some(entries[k].1),
{
    match header_text(headers.entries@, "user-agent"@) {
        Some(ua) => {
            let pred = agent_taker(ua, headers, body);
            lemma_first_where(entries, pred);
            if first_where(entries, pred) is Some {
                let v = first_where(entries, pred)->0;
                let j = choose|j: int| 0 <= j < entries.len() && entries[j].1 == v && pred(#[trigger] entries[j]);
                assert(!(occurs_in(entries[j].0@, lower_text(ua)) && entries[j].1.accepts(headers, body)));
            }
        },
        None => {},
    }
    let other = other_taker(headers, body);
    assert forall|j: int| 0 <= j < k implies !other(#[trigger] entries[j]) by {}
    lemma_first_where_at(entries, other, k);
}

/// With the built-in interpreters and no "x-source" header, a client whose user agent names
/// "openai" (in any letter case) has an OpenAI body read as OpenAI even where it carries
/// "max_tokens", which the Anthropic format would also take.
pub proof fn law_openai_agent_keeps_openai(registry: FormatRegistry, headers: RequestHeaders, body: &[u8], agent: Seq<char>)
    requires
        entry_names(registry.interpreter_entries()) == seq!["openai"@, "anthropic"@, "ollama"@],
        lookup(registry.interpreter_entries(), "openai"@) == Some(Interpreter::OpenAI(OpenAIInterpreter)),
        header_text(headers.entries@, "x-source"@) is None,
        header_text(headers.entries@, "user-agent"@) == Some(agent),
        occurs_in("openai"@, lower_text(agent)),
        openai_accepts(body@),
    ensures
        detect(registry.interpreter_entries(), headers, body) == Some(Interpreter::OpenAI(OpenAIInterpreter)),
{
    reveal_strlit("openai");
    let entries = registry.interpreter_entries();
    assert(entries.len() == 3) by {
        assert(entry_names(entries).len() == entries.len());
    }
    assert(entries[0].0@ == "openai"@) by {
        assert(entry_names(entries)[0] == entries[0].0@);
    }
    lemma_lookup_index(entries, "openai"@, 0);
    law_agent_decides_before_body(entries, headers, body, agent, 0);
}

} // verus!
