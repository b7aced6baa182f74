//! The Ollama generate/chat format.
use vstd::prelude::*;

use super::anthropic::system_prefix;
use super::{CanonicalChatRequest, CanonicalChatRequestView, CanonicalChatResponse, CanonicalMessage};
use crate::json::{member_insert, members_map, members_view, values_view, lemma_values_view_push, JsonValue, JsonView};
use crate::text::owned;
use crate::views::{clone_opt_string, opt_text, texts, ChatResponseView, MessageView};

verus! {

pub struct OllamaRequest {
    pub model: String,
    pub prompt: Option<String>,
    pub messages: Option<Vec<OllamaMessage>>,
    pub system: Option<String>,
    pub template: Option<String>,
    pub context: Option<JsonValue>,
    pub stream: Option<bool>,
    pub raw: Option<bool>,
    pub format: Option<String>,
    pub options: Option<OllamaOptions>,
    /// Members of the request beside the fields above.
    pub extra: Vec<(String, JsonValue)>,
}

pub struct OllamaMessage {
    pub role: String,
    pub content: String,
    pub images: Option<Vec<String>>,
}

pub struct OllamaOptions {
    /// Bit pattern of the `f32` temperature.
    pub temperature: Option<u32>,
    /// Bit pattern of the `f32` nucleus-sampling mass.
    pub top_p: Option<u32>,
    pub num_predict: Option<i32>,
    pub seed: Option<i32>,
    /// Options beside the fields above.
    pub extra: Vec<(String, JsonValue)>,
}

pub struct OllamaResponse {
    pub model: String,
    pub created_at: Option<String>,
    pub message: Option<OllamaMessage>,
    pub response: Option<String>,
    pub done: bool,
    pub context: Option<JsonValue>,
    pub total_duration: Option<u64>,
    pub load_duration: Option<u64>,
    pub prompt_eval_count: Option<u32>,
    pub prompt_eval_duration: Option<u64>,
    pub eval_count: Option<u32>,
    pub eval_duration: Option<u64>,
    pub extra: Vec<(String, JsonValue)>,
}

/// The content of an Ollama message.
pub struct OllamaMessageView {
    pub role: Seq<char>,
    pub content: Seq<char>,
    pub images: Option<Seq<Seq<char>>>,
}

/// The content of an Ollama response.
pub struct OllamaResponseView {
    pub model: Seq<char>,
    pub created_at: Option<Seq<char>>,
    pub message: Option<OllamaMessageView>,
    pub response: Option<Seq<char>>,
    pub done: bool,
    pub context: Option<JsonView>,
    pub total_duration: Option<u64>,
    pub load_duration: Option<u64>,
    pub prompt_eval_count: Option<u32>,
    pub prompt_eval_duration: Option<u64>,
    pub eval_count: Option<u32>,
    pub eval_duration: Option<u64>,
    pub extra: Map<Seq<char>, JsonView>,
}

impl View for OllamaMessage {
    type V = OllamaMessageView;

    open spec fn view(&self) -> OllamaMessageView {
        OllamaMessageView {
            role: self.role@,
            content: self.content@,
            images: match self.images {
                Some(v) => Some(texts(v@)),
                None => None,
            },
        }
    }
}

impl View for OllamaResponse {
    type V = OllamaResponseView;

    open spec fn view(&self) -> OllamaResponseView {
        OllamaResponseView {
            model: self.model@,
            created_at: opt_text(self.created_at),
            message: match self.message {
                Some(m) => Some(m@),
                None => None,
            },
            response: opt_text(self.response),
            done: self.done,
            context: match self.context {
                Some(c) => Some(c.view_of()),
                None => None,
            },
            total_duration: self.total_duration,
            load_duration: self.load_duration,
            prompt_eval_count: self.prompt_eval_count,
            prompt_eval_duration: self.prompt_eval_duration,
            eval_count: self.eval_count,
            eval_duration: self.eval_duration,
            extra: members_map(self.extra@),
        }
    }
}

/// A key and value read as a map: later pairs override earlier ones.
pub open spec fn pairs_map(pairs: Seq<(Seq<char>, JsonView)>) -> Map<Seq<char>, JsonView>
    decreases pairs.len(),
{
    if pairs.len() == 0 {
        Map::empty()
    } else {
        pairs_map(pairs.drop_last()).insert(pairs.last().0, pairs.last().1)
    }
}

/// A list of images as a JSON array of strings.
pub open spec fn images_json(images: Seq<String>) -> JsonView {
    JsonView::Array(images.map_values(|s: String| JsonView::String(s@)))
}

/// The "images" members that the messages contribute, in order: one for each message
/// that carries images.
pub open spec fn image_pairs(messages: Seq<OllamaMessage>) -> Seq<(Seq<char>, JsonView)>
    decreases messages.len(),
{
    if messages.len() == 0 {
        Seq::empty()
    } else {
        image_pairs(messages.drop_last()) + match messages.last().images {
            Some(v) => seq![("images"@, images_json(v@))],
            None => Seq::empty(),
        }
    }
}

/// The one pair for an optional value, or none.
pub open spec fn opt_pair(key: Seq<char>, value: Option<JsonView>) -> Seq<(Seq<char>, JsonView)> {
    match value {
        Some(v) => seq![(key, v)],
        None => Seq::empty(),
    }
}

/// The members that an Ollama request hands on in the canonical request's extra fields, in
/// the order in which they are recorded: template, context, raw, format, the request's
/// own extra members, then one "images" member per message that carries images.
pub open spec fn ollama_extra_pairs(r: OllamaRequest) -> Seq<(Seq<char>, JsonView)> {
    opt_pair(
        "template"@,
        match r.template {
            Some(t) => Some(JsonView::String(t@)),
            None => None,
        },
    ) + opt_pair(
        "context"@,
        match r.context {
            Some(c) => Some(c.view_of()),
            None => None,
        },
    ) + opt_pair(
        "raw"@,
        match r.raw {
            Some(b) => Some(JsonView::Bool(b)),
            None => None,
        },
    ) + opt_pair(
        "format"@,
        match r.format {
            Some(f) => Some(JsonView::String(f@)),
            None => None,
        },
    ) + members_view(r.extra@) + match r.messages {
        Some(ms) => image_pairs(ms@),
        None => Seq::empty(),
    }
}

/// An Ollama message as a canonical message, which carries no speaker name.
pub open spec fn ollama_message_canonical(m: OllamaMessage) -> MessageView {
    MessageView { role: m.role@, content: m.content@, name: None }
}

/// The conversation that an Ollama request stands for: the system prompt first, if any;
/// then the chat messages, or, where there are none, the prompt as a "user" message.
pub open spec fn ollama_messages(r: OllamaRequest) -> Seq<MessageView> {
    system_prefix(opt_text(r.system)) + match r.messages {
        Some(ms) => ms@.map_values(|m: OllamaMessage| ollama_message_canonical(m)),
        None => match r.prompt {
            Some(p) => seq![MessageView { role: "user"@, content: p@, name: None }],
            None => Seq::empty(),
        },
    }
}

/// The canonical request that an Ollama request stands for. A negative `num_predict`
/// becomes its two's-complement `u32` reading, as an `as` cast does.
pub open spec fn ollama_request_canonical(r: OllamaRequest) -> CanonicalChatRequestView {
    CanonicalChatRequestView {
        model: r.model@,
        messages: ollama_messages(r),
        temperature: match r.options {
            Some(o) => o.temperature,
            None => None,
        },
        max_tokens: match r.options {
            Some(o) => match o.num_predict {
                Some(n) => Some(n as u32),
                None => None,
            },
            None => None,
        },
        stream: r.stream,
        top_p: match r.options {
            Some(o) => o.top_p,
            None => None,
        },
        frequency_penalty: None,
        presence_penalty: None,
        stop: None,
        system: opt_text(r.system),
        extra: pairs_map(ollama_extra_pairs(r)),
    }
}

/// The members recorded so far read as a map agree with the pairs they were made from.
proof fn lemma_members_map_pairs(m: Seq<(String, JsonValue)>)
    ensures
        members_map(m) == pairs_map(members_view(m)),
    decreases m.len(),
{
    if m.len() > 0 {
        lemma_members_map_pairs(m.drop_last());
        assert(m.subrange(0, m.len() - 1) =~= m.drop_last());
        assert(members_view(m).drop_last() =~= members_view(m.drop_last()));
    }
}

/// Recording the members of `more` one after the other extends the pairs by their views.
proof fn lemma_members_view_append(m: Seq<(String, JsonValue)>, x: (String, JsonValue))
    ensures
        members_view(m.push(x)) == members_view(m).push((x.0@, x.1.view_of())),
{
    assert(m.push(x).subrange(0, m.len() as int) =~= m);
}

/// Adds a member and keeps the pairs in step.
fn record(
    extra: &mut Vec<(String, JsonValue)>,
    key: String,
    value: JsonValue,
    Ghost(pairs): Ghost<Seq<(Seq<char>, JsonView)>>,
)
    requires
        members_view(old(extra)@) == pairs,
    ensures
        members_view(final(extra)@) == pairs.push((key@, value.view_of())),
{
    let ghost before = extra@;
    member_insert(extra, key, value);
    proof {
        lemma_members_view_append(before, (key, value));
    }
}

/// The images as a JSON array of strings.
fn images_value(images: Vec<String>) -> (r: JsonValue)
    ensures
        r.view_of() == images_json(images@),
{
    let ghost input = images@;
    let mut out: Vec<JsonValue> = Vec::new();
    for s in it: images.into_iter()
        invariant
            it.seq() == input,
            values_view(out@) == input.subrange(0, it.index() as int).map_values(
                |s: String| JsonView::String(s@),
            ),
    {
        let ghost before = out@;
        let ghost k = it.index();
        let v = JsonValue::String(s);
        proof {
            lemma_values_view_push(before, v);
            assert(input.subrange(0, k + 1).map_values(|s: String| JsonView::String(s@)) =~= input.subrange(0, k).map_values(|s: String| JsonView::String(s@)).push(JsonView::String(input[k]@)));
        }
        out.push(v);
    }
    proof {
        assert(input.subrange(0, input.len() as int) =~= input);
    }
    JsonValue::Array(out)
}

impl OllamaRequest {
    /// Converts to the canonical request.
    pub fn to_canonical(self) -> (r: CanonicalChatRequest)
        ensures
            r@ == ollama_request_canonical(self),
            r.stream == self.stream,
    {
        let ghost source = self;
        let OllamaRequest {
            model,
            prompt,
            messages: chat,
            system,
            template,
            context,
            stream,
            raw,
            format,
            options,
            extra: given,
        } = self;
        let mut messages: Vec<CanonicalMessage> = Vec::new();
        let mut extra: Vec<(String, JsonValue)> = Vec::new();
        let ghost mut pairs: Seq<(Seq<char>, JsonView)> = Seq::empty();
        proof {
            reveal_strlit("template");
            reveal_strlit("context");
            reveal_strlit("raw");
            reveal_strlit("format");
            reveal_strlit("images");
            reveal_strlit("system");
            reveal_strlit("user");
        }
        // Copy ollama-specific fields to extra
        if let Some(t) = template {
            record(&mut extra, owned("template"), JsonValue::String(t), Ghost(pairs));
            proof { pairs = pairs.push(("template"@, JsonView::String(t@))); }
        }
        assert(pairs =~= opt_pair("template"@, match source.template { Some(t) => Some(JsonView::String(t@)), None => None }));
        let ghost p1 = pairs;
        if let Some(c) = context {
            let ghost cv = c.view_of();
            record(&mut extra, owned("context"), c, Ghost(pairs));
            proof { pairs = pairs.push(("context"@, cv)); }
        }
        assert(pairs =~= p1 + opt_pair("context"@, match source.context { Some(c) => Some(c.view_of()), None => None }));
        let ghost p2 = pairs;
        if let Some(b) = raw {
            record(&mut extra, owned("raw"), JsonValue::Bool(b), Ghost(pairs));
            proof { pairs = pairs.push(("raw"@, JsonView::Bool(b))); }
        }
        assert(pairs =~= p2 + opt_pair("raw"@, match source.raw { Some(b) => Some(JsonView::Bool(b)), None => None }));
        let ghost p3 = pairs;
        if let Some(f) = format {
            record(&mut extra, owned("format"), JsonValue::String(f), Ghost(pairs));
            proof { pairs = pairs.push(("format"@, JsonView::String(f@))); }
        }
        assert(pairs =~= p3 + opt_pair("format"@, match source.format { Some(f) => Some(JsonView::String(f@)), None => None }));
        let ghost p4 = pairs;
        // Copy any extra fields
        let ghost given_seq = given@;
        for kv in it: given.into_iter()
            invariant
                it.seq() == given_seq,
                members_view(extra@) == pairs,
                pairs == p4 + members_view(given_seq.subrange(0, it.index() as int)),
        {
            let ghost k = it.index();
            let (key, value) = kv;
            let ghost entry = (key@, value.view_of());
            record(&mut extra, key, value, Ghost(pairs));
            proof {
                pairs = pairs.push(entry);
                assert(given_seq.subrange(0, k + 1) =~= given_seq.subrange(0, k).push(given_seq[k]));
                lemma_members_view_append(given_seq.subrange(0, k), given_seq[k]);
            }
        }
        proof {
            assert(given_seq.subrange(0, given_seq.len() as int) =~= given_seq);
        }
        let ghost p5 = pairs;
        // Handle system message
        if let Some(s) = &system {
            messages.push(CanonicalMessage { role: owned("system"), content: s.clone(), name: None });
        }
        let ghost m0 = messages@;
        assert(m0.map_values(|m: CanonicalMessage| m@) =~= system_prefix(opt_text(source.system)));
        // Handle messages or prompt
        if let Some(chat_messages) = chat {
            let ghost input = chat_messages@;
            for msg in it: chat_messages.into_iter()
                invariant
                    it.seq() == input,
                    messages@.len() == m0.len() + it.index(),
                    forall|j: int| 0 <= j < m0.len() ==> #[trigger] messages@[j] == m0[j],
                    forall|j: int| 0 <= j < it.index() ==> #[trigger] messages@[m0.len() + j]@ == ollama_message_canonical(input[j]),
                    members_view(extra@) == pairs,
                    pairs == p5 + image_pairs(input.subrange(0, it.index() as int)),
            {
                let ghost k = it.index();
                let ghost whole = msg;
                let OllamaMessage { role, content, images } = msg;
                messages.push(CanonicalMessage { role, content, name: None });
                proof {
                    assert(input.subrange(0, k + 1).drop_last() =~= input.subrange(0, k));
                }
                // Store images in extra if present
                if let Some(imgs) = images {
                    let ghost iv = images_json(imgs@);
                    let value = images_value(imgs);
                    record(&mut extra, owned("images"), value, Ghost(pairs));
                    proof { pairs = pairs.push(("images"@, iv)); }
                }
                proof {
                    assert(pairs =~= p5 + image_pairs(input.subrange(0, k + 1)));
                }
            }
            proof {
                assert(input.subrange(0, input.len() as int) =~= input);
                let want = ollama_messages(source);
                let prefix = system_prefix(opt_text(source.system));
                let rest = input.map_values(|m: OllamaMessage| ollama_message_canonical(m));
                assert(want == prefix + rest);
                assert(prefix =~= m0.map_values(|m: CanonicalMessage| m@));
                assert forall|j: int| 0 <= j < messages@.len() implies #[trigger] messages@[j]@ == want[j] by {
                    if j < m0.len() {
                        assert(messages@[j] == m0[j]);
                    } else {
                        assert(messages@[m0.len() + (j - m0.len())]@ == ollama_message_canonical(input[j - m0.len()]));
                    }
                }
                assert(messages@.map_values(|m: CanonicalMessage| m@) =~= want);
            }
        } else if let Some(p) = prompt {
            // Non-chat mode with prompt
            messages.push(CanonicalMessage { role: owned("user"), content: p, name: None });
            proof {
                assert(messages@.map_values(|m: CanonicalMessage| m@) =~= ollama_messages(source));
            }
        } else {
            proof {
                assert(messages@.map_values(|m: CanonicalMessage| m@) =~= ollama_messages(source));
            }
        }
        // Extract options
        let (temperature, top_p, max_tokens) = match options {
            Some(o) => (
                o.temperature,
                o.top_p,
                match o.num_predict {
                    Some(n) => Some(#[verifier::truncate] (n as u32)),
                    None => None,
                },
            ),
            None => (None, None, None),
        };
        let r = CanonicalChatRequest {
            model,
            messages,
            temperature,
            max_tokens,
            stream,
            top_p,
            frequency_penalty: None,
            presence_penalty: None,
            stop: None,
            system: clone_opt_string(&system),
            extra,
        };
        proof {
            assert(pairs =~= ollama_extra_pairs(source));
            lemma_members_map_pairs(r.extra@);
        }
        r
    }
}

/// A reading of the system clock against the Unix epoch, from `std::time::SystemTime::now`
/// and `SystemTime::duration_since(UNIX_EPOCH)`: whether the clock reads at or after the
/// epoch, and the distance from it in whole seconds and the nanoseconds beyond them. What it
/// returns depends on the clock; std documents only that the nanoseconds (`subsec_nanos`)
/// stay below one billion.
#[verifier::external_body]
fn clock_reading() -> (r: (bool, u64, u32))
    ensures
        r.2 < 1_000_000_000,
{
    match std::time::SystemTime::now().duration_since(std::time::UNIX_EPOCH) {
        Ok(d) => (true, d.as_secs(), d.subsec_nanos()),
        Err(e) => (false, e.duration().as_secs(), e.duration().subsec_nanos()),
    }
}

/// The RFC 3339 text of the instant `secs` seconds and `nanos` nanoseconds after the Unix
/// epoch, as chrono writes it, or nothing where chrono has no such instant.
pub uninterp spec fn rfc3339_of(secs: i64, nanos: u32) -> Option<Seq<char>>;

/// `chrono::DateTime::<Utc>::from_timestamp` followed by `DateTime::to_rfc3339`: the text is
/// named `rfc3339_of(secs, nanos)`; `from_timestamp` returns `None` outside chrono's range and
/// neither call panics.
#[verifier::external_body]
fn rfc3339_at(secs: i64, nanos: u32) -> (r: Option<String>)
    ensures
        opt_text(r) == rfc3339_of(secs, nanos),
{
    chrono::DateTime::<chrono::Utc>::from_timestamp(secs, nanos).map(|t| t.to_rfc3339())
}

/// The Unix timestamp (seconds, which may be negative, and nanoseconds below one billion) of
/// a clock reading: `secs` and `nanos` after the epoch, or, before it, that far back. `None`
/// where the seconds do not fit in an `i64`.
pub open spec fn timestamp_of(after: bool, secs: u64, nanos: u32) -> Option<(i64, u32)> {
    if after {
        if secs <= i64::MAX {
            Some((secs as i64, nanos))
        } else {
            None
        }
    } else if nanos == 0 {
        if secs <= i64::MAX {
            Some(((0 - secs) as i64, 0u32))
        } else {
            None
        }
    } else if secs < i64::MAX {
        Some(((0 - secs - 1) as i64, (1_000_000_000 - nanos) as u32))
    } else {
        None
    }
}

/// Converts a clock reading to a Unix timestamp, as chrono does for a `SystemTime`.
pub fn unix_timestamp(after: bool, secs: u64, nanos: u32) -> (r: Option<(i64, u32)>)
    requires
        nanos < 1_000_000_000,
    ensures
        r == timestamp_of(after, secs, nanos),
{
    if secs > 9_223_372_036_854_775_807u64 {
        return None;
    }
    let s: i64 = secs as i64;
    if after {
        Some((s, nanos))
    } else if nanos == 0 {
        Some((0 - s, 0))
    } else if s < 9_223_372_036_854_775_807i64 {
        Some((0 - s - 1, 1_000_000_000 - nanos))
    } else {
        None
    }
}

/// The stamp for a clock reading: the RFC 3339 text of its Unix timestamp, or nothing where
/// the reading has no timestamp or chrono no such instant.
pub open spec fn stamp_of(after: bool, secs: u64, nanos: u32) -> Option<Seq<char>> {
    match timestamp_of(after, secs, nanos) {
        Some((s, n)) => rfc3339_of(s, n),
        None => None,
    }
}

/// `t` is the stamp of some reading of the system clock.
pub open spec fn clock_stamp(t: Option<Seq<char>>) -> bool {
    exists|after: bool, secs: u64, nanos: u32| nanos < 1_000_000_000 && t == #[trigger] stamp_of(after, secs, nanos)
}

/// The current time in RFC 3339 form, or nothing where the clock's reading has no such form.
fn created_now() -> (r: Option<String>)
    ensures
        clock_stamp(opt_text(r)),
{
    let (after, secs, nanos) = clock_reading();
    let r = match unix_timestamp(after, secs, nanos) {
        Some((s, n)) => rfc3339_at(s, n),
        None => None,
    };
    assert(opt_text(r) == stamp_of(after, secs, nanos));
    r
}

/// The Ollama response for a canonical response, stamped with `created_at`: the first
/// choice's content (empty without choices) as both the assistant message and the
/// response text, prompt tokens as prompt evaluation count and completion tokens as
/// evaluation count.
pub open spec fn ollama_response_of(c: ChatResponseView, created_at: Option<Seq<char>>) -> OllamaResponseView {
    let content = if c.choices.len() > 0 {
        c.choices[0].message.content
    } else {
        Seq::empty()
    };
    OllamaResponseView {
        model: c.model,
        created_at,
        message: Some(OllamaMessageView { role: "assistant"@, content, images: None }),
        response: Some(content),
        done: true,
        context: None,
        total_duration: None,
        load_duration: None,
        prompt_eval_count: match c.usage {
            Some(u) => Some(u.prompt_tokens),
            None => None,
        },
        prompt_eval_duration: None,
        eval_count: match c.usage {
            Some(u) => Some(u.completion_tokens),
            None => None,
        },
        eval_duration: None,
        extra: Map::empty(),
    }
}

impl OllamaResponse {
    /// The Ollama response for `c`, stamped with the given creation time.
    pub fn from_canonical_at(c: &CanonicalChatResponse, created_at: Option<String>) -> (r: OllamaResponse)
        ensures
            r@ == ollama_response_of(c@, opt_text(created_at)),
    {
        let content = if c.choices.len() > 0 {
            owned(c.choices[0].message.content.as_str())
        } else {
            String::new()
        };
        proof {
            reveal_strlit("assistant");
        }
        let message = Some(
            OllamaMessage { role: owned("assistant"), content: owned(content.as_str()), images: None },
        );
        let usage_tokens = match c.usage {
            Some(u) => Some(u.completion_tokens),
            None => None,
        };
        let r = OllamaResponse {
            model: owned(c.model.as_str()),
            created_at,
            message,
            response: Some(content),
            done: true,
            context: None,
            total_duration: None,
            load_duration: None,
            prompt_eval_count: match c.usage {
                Some(u) => Some(u.prompt_tokens),
                None => None,
            },
            prompt_eval_duration: None,
            eval_count: usage_tokens,
            eval_duration: None,
            extra: Vec::new(),
        };
        proof {
            assert(r@.extra =~= Map::empty());
        }
        r
    }

    /// The Ollama response for `c`, stamped with the system clock's current time (nothing only
    /// where chrono cannot represent the clock's reading).
    pub fn from_canonical(c: &CanonicalChatResponse) -> (r: OllamaResponse)
        ensures
            clock_stamp(r@.created_at),
            r@ == ollama_response_of(c@, r@.created_at),
    {
        Self::from_canonical_at(c, created_now())
    }
}

/// Converting an Ollama request keeps the model, the streaming flag and the system prompt,
/// which comes first as a "system" message; then every chat message follows in order with its
/// own role and content, or, without chat messages, the prompt as one "user" message. The
/// options' temperature and nucleus-sampling mass are kept, and `num_predict` becomes the
/// token limit.
pub proof fn law_ollama_request_kept(r: OllamaRequest)
    ensures
        ({
            let c = ollama_request_canonical(r);
            let off: int = if r.system is Some { 1 } else { 0 };
            &&& c.model == r.model@
            &&& c.stream == r.stream
            &&& c.temperature == match r.options {
                Some(o) => o.temperature,
                None => None,
            }
            &&& c.top_p == match r.options {
                Some(o) => o.top_p,
                None => None,
            }
            &&& c.max_tokens == match r.options {
                Some(o) => match o.num_predict {
                    Some(n) => Some(n as u32),
                    None => None,
                },
                None => None,
            }
            &&& match r.system {
                Some(s) => c.system == Some(s@) && c.messages[0].role == "system"@ && c.messages[0].content == s@,
                None => c.system is None,
            }
            &&& match r.messages {
                Some(ms) => c.messages.len() == off + ms@.len() && forall|k: int|
                    0 <= k < ms@.len() ==> {
                        &&& (#[trigger] c.messages[off + k]).role == ms@[k].role@
                        &&& c.messages[off + k].content == ms@[k].content@
                        &&& c.messages[off + k].name is None
                    },
                None => match r.prompt {
                    Some(p) => c.messages.len() == off + 1 && c.messages[off].role == "user"@
                        && c.messages[off].content == p@,
                    None => c.messages.len() == off,
                },
            }
        }),
{
    let c = ollama_request_canonical(r);
    let off: int = if r.system is Some { 1 } else { 0 };
    assert(system_prefix(opt_text(r.system)).len() == off);
    match r.messages {
        Some(ms) => {
            assert forall|k: int| 0 <= k < ms@.len() implies {
                &&& (#[trigger] c.messages[off + k]).role == ms@[k].role@
                &&& c.messages[off + k].content == ms@[k].content@
                &&& c.messages[off + k].name is None
            } by {
                assert(c.messages[off + k] == ollama_message_canonical(ms@[k]));
            }
        },
        None => {},
    }
}

/// The Ollama response keeps the model, answers as the assistant with the first choice's
/// content (empty without choices) both as message and as response text, is marked done, is
/// stamped with the given time, and counts prompt tokens as prompt evaluations and completion
/// tokens as evaluations.
pub proof fn law_ollama_response_kept(c: ChatResponseView, created_at: Option<Seq<char>>)
    ensures
        ({
            let o = ollama_response_of(c, created_at);
            let text = if c.choices.len() > 0 {
                c.choices[0].message.content
            } else {
                Seq::empty()
            };
            &&& o.model == c.model
            &&& o.created_at == created_at
            &&& o.message matches Some(m) && m.role == "assistant"@ && m.content == text
            &&& o.response == Some(text)
            &&& o.done
            &&& o.prompt_eval_count == match c.usage {
                Some(u) => Some(u.prompt_tokens),
                None => None,
            }
            &&& o.eval_count == match c.usage {
                Some(u) => Some(u.completion_tokens),
                None => None,
            }
        }),
{
}

} // verus!
