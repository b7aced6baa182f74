//! The proxy's decisions: which provider serves a request, what is sent upstream, and
//! what the client is answered with.
use vstd::prelude::*;

use crate::assoc::lookup;
use crate::config::{Config, OutputFormat, ProviderConfig, ProviderView};
use crate::formats::{detect, CanonicalChatResponse, FormatRegistry, FormattedResponse, Interpreter, ResponseFormatter};
use crate::headers::RequestHeaders;
use crate::text::{concat, is_prefix, lower_text, owned, same_text, starts_with, to_lower, trim_end_all, trim_end_matches};

verus! {

/// The state that the request handlers share.
pub struct ProxyState {
    pub config: Config,
    pub format_registry: FormatRegistry,
}

/// A request to an upstream provider, ready to be sent.
pub struct UpstreamRequest {
    /// The provider's name.
    pub provider_name: String,
    /// The chat completions URL of the provider.
    pub url: String,
    /// The value of the authorization header.
    pub authorization: String,
    /// Whether the client asked for a streamed response.
    pub streaming: bool,
    /// The client's headers that are passed on, in order.
    pub forwarded_headers: Vec<(String, String)>,
    /// The name of the formatter for the provider's output format.
    pub formatter_name: &'static str,
}

/// An error answer: an HTTP status, the error's type and a message.
pub struct ProxyError {
    pub status: u16,
    pub error_type: &'static str,
    pub message: String,
}

/// What a request can fail on.
pub enum Failure {
    /// The gateway has an API key and the request does not present it.
    Unauthorized,
    /// No interpreter takes the request.
    UnknownFormat,
    /// The body does not decode in its format; the decoder's explanation.
    InvalidBody(String),
    /// No provider has the requested name, or none is configured.
    NoProvider,
    /// The upstream provider cannot be reached; the client's explanation.
    Unreachable(String),
    /// The upstream response's body cannot be read.
    UnreadableResponse,
    /// The converted response cannot be encoded.
    Unencodable,
    /// No endpoint has the requested path.
    NotFound,
}

/// The HTTP status of the answer to a failure.
pub open spec fn failure_status(f: Failure) -> u16 {
    match f {
        Failure::Unauthorized => 401,
        Failure::UnknownFormat => 400,
        Failure::InvalidBody(_) => 400,
        Failure::NoProvider => 400,
        Failure::Unreachable(_) => 502,
        Failure::UnreadableResponse => 502,
        Failure::Unencodable => 500,
        Failure::NotFound => 404,
    }
}

/// The error type of the answer to a failure.
pub open spec fn failure_type(f: Failure) -> Seq<char> {
    match f {
        Failure::Unauthorized => "authentication_error"@,
        _ => "api_error"@,
    }
}

/// The message of the answer to a failure.
pub open spec fn failure_message(f: Failure) -> Seq<char> {
    match f {
        Failure::Unauthorized => "Invalid or missing API key"@,
        Failure::UnknownFormat => "Could not detect request format"@,
        Failure::InvalidBody(e) => "Invalid request body: "@ + e@,
        Failure::NoProvider => "No provider configured"@,
        Failure::Unreachable(e) => "Failed to connect to upstream: "@ + e@,
        Failure::UnreadableResponse => "Failed to read upstream response"@,
        Failure::Unencodable => "Failed to format response"@,
        Failure::NotFound => "Endpoint not found"@,
    }
}

/// The error answer to a failure.
pub fn answer_to(failure: Failure) -> (r: ProxyError)
    ensures
        r.status == failure_status(failure),
        r.error_type@ == failure_type(failure),
        r.message@ == failure_message(failure),
{
    proof {
        reveal_strlit("authentication_error");
        reveal_strlit("api_error");
        reveal_strlit("Invalid or missing API key");
        reveal_strlit("Could not detect request format");
        reveal_strlit("Invalid request body: ");
        reveal_strlit("No provider configured");
        reveal_strlit("Failed to connect to upstream: ");
        reveal_strlit("Failed to read upstream response");
        reveal_strlit("Failed to format response");
        reveal_strlit("Endpoint not found");
    }
    match failure {
        Failure::Unauthorized => ProxyError {
            status: 401,
            error_type: "authentication_error",
            message: owned("Invalid or missing API key"),
        },
        Failure::UnknownFormat => ProxyError {
            status: 400,
            error_type: "api_error",
            message: owned("Could not detect request format"),
        },
        Failure::InvalidBody(e) => ProxyError {
            status: 400,
            error_type: "api_error",
            message: concat("Invalid request body: ", e.as_str()),
        },
        Failure::NoProvider => ProxyError {
            status: 400,
            error_type: "api_error",
            message: owned("No provider configured"),
        },
        Failure::Unreachable(e) => ProxyError {
            status: 502,
            error_type: "api_error",
            message: concat("Failed to connect to upstream: ", e.as_str()),
        },
        Failure::UnreadableResponse => ProxyError {
            status: 502,
            error_type: "api_error",
            message: owned("Failed to read upstream response"),
        },
        Failure::Unencodable => ProxyError {
            status: 500,
            error_type: "api_error",
            message: owned("Failed to format response"),
        },
        Failure::NotFound => ProxyError { status: 404, error_type: "api_error", message: owned("Endpoint not found") },
    }
}

/// What to do with the upstream response once its status is known.
#[derive(Clone, Copy, Debug, PartialEq, Eq, Structural)]
pub enum UpstreamHandling {
    /// Stream the upstream body to the client as server-sent events.
    Stream,
    /// Read the body and hand it on unchanged with this status.
    PassThrough(u16),
    /// Read the body and convert it to the provider's output format.
    Convert,
}

/// The answer to the client for a successful, non-streamed upstream response.
pub enum Reply {
    /// The upstream body, unchanged, with status 200.
    Raw,
    /// The converted response, with status 200.
    Formatted(FormattedResponse),
}

/// A provider configuration's copy.
pub fn clone_provider(p: &ProviderConfig) -> (r: ProviderConfig)
    ensures
        r@ == p@,
{
    ProviderConfig {
        base_url: p.base_url.clone(),
        api_key: p.api_key.clone(),
        input: crate::views::clone_opt_string(&p.input),
        output: p.output,
    }
}

/// The provider that serves a request: the one with the given name, or, without a name,
/// the first one configured.
pub open spec fn chosen_provider(providers: Seq<(String, ProviderConfig)>, name: Option<Seq<char>>) -> Option<(Seq<char>, ProviderView)> {
    match name {
        Some(n) => match lookup(providers, n) {
            Some(p) => Some((n, p@)),
            None => None,
        },
        None => if providers.len() > 0 {
            Some((providers[0].0@, providers[0].1@))
        } else {
            None
        },
    }
}

/// The interpreter for a request to the provider chosen by `name`: the interpreter
/// registered under the provider's configured input format, where it has one and it is
/// registered; otherwise the one that detection picks from the headers and body.
pub open spec fn interpreter_for(
    entries: Seq<(String, Interpreter)>,
    providers: Seq<(String, ProviderConfig)>,
    name: Option<Seq<char>>,
    headers: RequestHeaders,
    body: &[u8],
) -> Option<Interpreter> {
    let configured = match chosen_provider(providers, name) {
        Some((_, p)) => match p.input {
            Some(input) => lookup(entries, input),
            None => None,
        },
        None => None,
    };
    if configured is Some {
        configured
    } else {
        detect(entries, headers, body)
    }
}

/// The text of an optional name.
pub open spec fn opt_name(o: Option<&str>) -> Option<Seq<char>> {
    match o {
        Some(s) => Some(s@),
        None => None,
    }
}

/// The chat completions URL under a base URL: trailing slashes removed, then
/// "/chat/completions".
pub open spec fn completions_url(base_url: Seq<char>) -> Seq<char> {
    trim_end_all(base_url, "/"@) + "/chat/completions"@
}

/// Whether a client header is passed on upstream: its lower-cased name begins with "x-".
pub open spec fn forwarded(name: Seq<char>) -> bool {
    lower_text(name) == "x-request-id"@ || is_prefix("x-"@, lower_text(name))
}

/// The client headers passed upstream, in order: those with a forwarded name and a text value.
pub open spec fn forwarded_headers(headers: Seq<(String, Option<String>)>) -> Seq<(Seq<char>, Seq<char>)>
    decreases headers.len(),
{
    if headers.len() == 0 {
        Seq::empty()
    } else {
        let (name, value) = headers.last();
        forwarded_headers(headers.drop_last()) + if forwarded(name@) && value is Some {
            seq![(name@, value->0@)]
        } else {
            Seq::empty()
        }
    }
}

/// The formatter for an output format.
pub open spec fn formatter_for(output: OutputFormat) -> Seq<char> {
    match output {
        OutputFormat::Anthropic => "anthropic"@,
        OutputFormat::Ollama => "ollama"@,
        OutputFormat::OpenAiCompatible => "openai"@,
    }
}

/// What the proxy does with an upstream response of the given status: a successful streamed
/// request is streamed; an unsuccessful one is handed on with its status (502 where that is
/// no HTTP status code); anything else is converted.
pub open spec fn handling_of(streaming: bool, status: u16) -> UpstreamHandling {
    if streaming && 200 <= status <= 299 {
        UpstreamHandling::Stream
    } else if !(200 <= status <= 299) {
        UpstreamHandling::PassThrough(if 100 <= status <= 999 { status } else { 502 })
    } else {
        UpstreamHandling::Convert
    }
}

/// Decides what to do with an upstream response from its status.
pub fn upstream_handling(streaming: bool, status: u16) -> (r: UpstreamHandling)
    ensures
        r == handling_of(streaming, status),
{
    let success = 200 <= status && status <= 299;
    if streaming && success {
        UpstreamHandling::Stream
    } else if !success {
        let code = if 100 <= status && status <= 999 { status } else { 502 };
        UpstreamHandling::PassThrough(code)
    } else {
        UpstreamHandling::Convert
    }
}

impl ProxyState {
    pub fn new(config: Config, format_registry: FormatRegistry) -> (r: Self)
        ensures
            r.config == config,
            r.format_registry == format_registry,
    {
        Self { config, format_registry }
    }

    /// The provider with the given name, or the first configured provider without a name.
    pub fn get_provider(&self, provider_name: Option<&str>) -> (r: Option<(String, ProviderConfig)>)
        ensures
            match r {
                Some((n, p)) => chosen_provider(self.config.providers@, opt_name(provider_name)) == Some((n@, p@)),
                None => chosen_provider(self.config.providers@, opt_name(provider_name)) is None,
            },
    {
        match provider_name {
            Some(name) => {
                let providers = &self.config.providers;
                match crate::assoc::position(providers, name) {
                    Some(k) => {
                        proof {
                            crate::assoc::lemma_lookup_index(providers@, name@, k as int);
                        }
                        Some((owned(name), clone_provider(&providers[k].1)))
                    },
                    None => {
                        proof {
                            crate::assoc::lemma_lookup_absent(providers@, name@);
                        }
                        None
                    },
                }
            },
            None => {
                // Return first provider if no name specified
                if self.config.providers.len() > 0 {
                    Some((self.config.providers[0].0.clone(), clone_provider(&self.config.providers[0].1)))
                } else {
                    None
                }
            },
        }
    }

    /// The interpreter for a chat request to the provider named `provider_name` (the first
    /// configured one without a name): the provider's configured input format, where it is
    /// registered, else the detected format.
    pub fn choose_interpreter(&self, provider_name: Option<&str>, headers: &RequestHeaders, body: &[u8]) -> (r: Option<Interpreter>)
        ensures
            r == interpreter_for(
                self.format_registry.interpreter_entries(),
                self.config.providers@,
                opt_name(provider_name),
                *headers,
                body,
            ),
    {
        if let Some((_, p)) = self.get_provider(provider_name) {
            if let Some(input) = &p.input {
                if let Some(i) = self.format_registry.get_interpreter(input.as_str()) {
                    return Some(i);
                }
            }
        }
        self.format_registry.detect_interpreter(headers, body)
    }

    /// The request that goes upstream for a chat request: to the chosen provider's chat
    /// completions URL, with the provider's key as bearer token and the client's "x-"
    /// headers. Without such a provider the answer is 400 "No provider configured".
    pub fn plan_upstream(&self, provider_name: Option<&str>, stream: Option<bool>, headers: &RequestHeaders) -> (r: Result<UpstreamRequest, ProxyError>)
        ensures
            match chosen_provider(self.config.providers@, opt_name(provider_name)) {
                None => r matches Err(e) && e.status == failure_status(Failure::NoProvider) && e.error_type@
                    == failure_type(Failure::NoProvider) && e.message@ == failure_message(Failure::NoProvider),
                Some((name, p)) => r matches Ok(u) && {
                    &&& u.provider_name@ == name
                    &&& u.url@ == completions_url(p.base_url)
                    &&& u.authorization@ == "Bearer "@ + p.api_key
                    &&& u.streaming == (stream == Some(true))
                    &&& u.forwarded_headers@.map_values(|h: (String, String)| (h.0@, h.1@)) == forwarded_headers(headers.entries@)
                    &&& u.formatter_name@ == formatter_for(p.output)
                },
            },
    {
        proof {
            reveal_strlit("No provider configured");
            reveal_strlit("/");
            reveal_strlit("/chat/completions");
            reveal_strlit("Bearer ");
            reveal_strlit("anthropic");
            reveal_strlit("openai");
            reveal_strlit("ollama");
        }
        // Get provider configuration
        let (name, provider) = match self.get_provider(provider_name) {
            Some(p) => p,
            None => {
                return Err(answer_to(Failure::NoProvider));
            },
        };
        // Check if streaming is requested
        let streaming = match stream {
            Some(b) => b,
            None => false,
        };
        // Forward request to upstream provider (always as OpenAI format)
        let base = trim_end_matches(provider.base_url.as_str(), "/");
        let url = concat(base.as_str(), "/chat/completions");
        let authorization = concat("Bearer ", provider.api_key.as_str());
        let forwarded_headers = forward_headers(headers);
        let formatter_name: &'static str = match provider.output {
            OutputFormat::Anthropic => "anthropic",
            OutputFormat::Ollama => "ollama",
            OutputFormat::OpenAiCompatible => "openai",
        };
        Ok(UpstreamRequest { provider_name: name, url, authorization, streaming, forwarded_headers, formatter_name })
    }

    /// The answer for a successful upstream response once its body is read: the converted
    /// response where the formatter is registered and the body was a chat response,
    /// otherwise the body unchanged.
    pub fn reply(&self, formatter_name: &str, parsed: Option<&CanonicalChatResponse>) -> (r: Reply)
        ensures
            match (lookup(self.format_registry.formatter_entries(), formatter_name@), parsed) {
                (Some(f), Some(c)) => r matches Reply::Formatted(out) && f.formats_as(c, &out),
                _ => r is Raw,
            },
    {
        // Get formatter based on provider's configured output
        let formatter = match self.format_registry.get_formatter(formatter_name) {
            Some(f) => f,
            None => {
                // Fallback to passthrough if formatter not found
                return Reply::Raw;
            },
        };
        match parsed {
            // Return original response if parsing fails
            None => Reply::Raw,
            Some(c) => Reply::Formatted(formatter.format(c)),
        }
    }
}

/// The client headers that go upstream.
pub fn forward_headers(headers: &RequestHeaders) -> (r: Vec<(String, String)>)
    ensures
        r@.map_values(|h: (String, String)| (h.0@, h.1@)) == forwarded_headers(headers.entries@),
{
    proof {
        reveal_strlit("x-request-id");
        reveal_strlit("x-");
    }
    let mut out: Vec<(String, String)> = Vec::new();
    let mut i: usize = 0;
    while i < headers.entries.len()
        invariant
            i <= headers.entries.len(),
            out@.map_values(|h: (String, String)| (h.0@, h.1@)) == forwarded_headers(headers.entries@.subrange(0, i as int)),
        decreases headers.entries.len() - i,
    {
        let ghost before = out@;
        let key_str = to_lower(headers.entries[i].0.as_str());
        assert(headers.entries@.subrange(0, i + 1).drop_last() =~= headers.entries@.subrange(0, i as int));
        if same_text(key_str.as_str(), "x-request-id") || starts_with(key_str.as_str(), "x-") {
            if let Some(value) = &headers.entries[i].1 {
                out.push((owned(headers.entries[i].0.as_str()), owned(value.as_str())));
                assert(out@.map_values(|h: (String, String)| (h.0@, h.1@)) =~= before.map_values(|h: (String, String)| (h.0@, h.1@)).push((headers.entries@[i as int].0@, value@)));
            }
        }
        assert(out@.map_values(|h: (String, String)| (h.0@, h.1@)) =~= forwarded_headers(headers.entries@.subrange(0, i + 1)));
        i = i + 1;
    }
    assert(headers.entries@.subrange(0, i as int) =~= headers.entries@);
    out
}

/// One entry of the model list: a model id and the provider that owns it.
pub struct ModelEntry {
    pub id: String,
    pub owned_by: String,
}

/// The model list: for each provider, in order, "<name>/default" owned by the provider.
pub fn model_entries(config: &Config) -> (r: Vec<ModelEntry>)
    ensures
        r@.len() == config.providers@.len(),
        forall|i: int|
            0 <= i < r@.len() ==> #[trigger] r@[i].id@ == config.providers@[i].0@ + "/default"@
                && r@[i].owned_by@ == config.providers@[i].0@,
{
    let mut out: Vec<ModelEntry> = Vec::new();
    let mut i: usize = 0;
    while i < config.providers.len()
        invariant
            i <= config.providers.len(),
            out@.len() == i,
            forall|j: int|
                0 <= j < i ==> #[trigger] out@[j].id@ == config.providers@[j].0@ + "/default"@
                    && out@[j].owned_by@ == config.providers@[j].0@,
        decreases config.providers.len() - i,
    {
        let name = config.providers[i].0.as_str();
        out.push(ModelEntry { id: concat(name, "/default"), owned_by: owned(name) });
        i = i + 1;
    }
    out
}

/// A provider whose configured input format is registered has its requests read in that
/// format, whatever their headers and body.
pub proof fn law_configured_input_decides(
    entries: Seq<(String, Interpreter)>,
    providers: Seq<(String, ProviderConfig)>,
    name: Option<Seq<char>>,
    headers: RequestHeaders,
    body: &[u8],
    input: Seq<char>,
    interpreter: Interpreter,
)
    requires
        chosen_provider(providers, name) matches Some((_, p)) && p.input == Some(input),
        lookup(entries, input) == Some(interpreter),
    ensures
        interpreter_for(entries, providers, name, headers, body) == Some(interpreter),
{
}

/// Every header passed upstream has a forwarded name and comes, with its value, from the
/// client's headers.
proof fn lemma_forwarded_headers(headers: Seq<(String, Option<String>)>)
    ensures
        forall|k: int|
            0 <= k < forwarded_headers(headers).len() ==> forwarded(#[trigger] forwarded_headers(headers)[k].0),
    decreases headers.len(),
{
    if headers.len() > 0 {
        lemma_forwarded_headers(headers.drop_last());
        let prev = forwarded_headers(headers.drop_last());
        assert forall|k: int| 0 <= k < forwarded_headers(headers).len() implies forwarded(
            #[trigger] forwarded_headers(headers)[k].0,
        ) by {
            if k < prev.len() {
                assert(forwarded_headers(headers)[k] == prev[k]);
            }
        }
    }
}

/// The client's credentials stay with the gateway: no header whose name is
/// "authorization", in any letter case, is passed upstream, so the upstream request carries
/// only the provider's own key.
pub proof fn law_client_authorization_not_forwarded(headers: Seq<(String, Option<String>)>)
    ensures
        forall|k: int|
            0 <= k < forwarded_headers(headers).len() ==> lower_text(#[trigger] forwarded_headers(headers)[k].0)
                != "authorization"@,
{
    reveal_strlit("x-request-id");
    reveal_strlit("x-");
    reveal_strlit("authorization");
    lemma_forwarded_headers(headers);
    assert forall|k: int| 0 <= k < forwarded_headers(headers).len() implies lower_text(
        #[trigger] forwarded_headers(headers)[k].0,
    ) != "authorization"@ by {
        let l = lower_text(forwarded_headers(headers)[k].0);
        assert(forwarded(forwarded_headers(headers)[k].0));
        if l == "authorization"@ {
            assert(l != "x-request-id"@) by {
                assert(l.len() != "x-request-id"@.len());
            }
            assert(l.subrange(0, 2) != "x-"@) by {
                assert(l[0] != "x-"@[0]);
            }
        }
    }
}

/// Trailing slashes of a provider's base URL do not change where requests go.
pub proof fn law_trailing_slash_ignored(base_url: Seq<char>)
    ensures
        completions_url(base_url + "/"@) == completions_url(base_url),
{
    reveal_strlit("/");
    let s = base_url + "/"@;
    assert(crate::text::is_suffix("/"@, s)) by {
        assert(s.subrange(s.len() - 1, s.len() as int) =~= "/"@);
    }
    assert(s.subrange(0, s.len() - 1) =~= base_url);
}

} // verus!
