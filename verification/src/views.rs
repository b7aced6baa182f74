//! Mathematical views shared by the request and response types of all protocols.
use vstd::prelude::*;

verus! {

/// The text of an optional string.
pub open spec fn opt_text(o: Option<String>) -> Option<Seq<char>> {
    match o {
        Some(s) => Some(s@),
        None => None,
    }
}

/// The texts of a sequence of strings.
pub open spec fn texts(v: Seq<String>) -> Seq<Seq<char>> {
    v.map_values(|s: String| s@)
}

/// The texts of an optional list of strings.
pub open spec fn opt_texts(o: Option<Vec<String>>) -> Option<Seq<Seq<char>>> {
    match o {
        Some(v) => Some(texts(v@)),
        None => None,
    }
}

/// A chat message: who speaks, what is said, and an optional speaker name.
pub struct MessageView {
    pub role: Seq<char>,
    pub content: Seq<char>,
    pub name: Option<Seq<char>>,
}

/// One completion choice of a chat response.
pub struct ChoiceView {
    pub index: u32,
    pub message: MessageView,
    pub finish_reason: Option<Seq<char>>,
}

/// Token counts of a chat response.
pub struct UsageView {
    pub prompt_tokens: u32,
    pub completion_tokens: u32,
    pub total_tokens: u32,
}

/// An OpenAI-shaped chat response.
pub struct ChatResponseView {
    pub id: Seq<char>,
    pub object: Seq<char>,
    pub created: i64,
    pub model: Seq<char>,
    pub choices: Seq<ChoiceView>,
    pub usage: Option<UsageView>,
}

/// An Anthropic-shaped chat response: one text block per choice.
pub struct AnthropicResponseView {
    pub id: Seq<char>,
    pub response_type: Seq<char>,
    pub role: Seq<char>,
    pub content: Seq<Seq<char>>,
    pub model: Seq<char>,
    pub stop_reason: Option<Seq<char>>,
    pub usage: Option<(u32, u32)>,
}

/// The Anthropic view of an OpenAI-shaped response: one text block per choice, the first
/// choice's finish reason as stop reason, prompt and completion tokens as input and output.
pub open spec fn anthropic_of(c: ChatResponseView) -> AnthropicResponseView {
    AnthropicResponseView {
        id: c.id,
        response_type: "message"@,
        role: "assistant"@,
        content: c.choices.map_values(|ch: ChoiceView| ch.message.content),
        model: c.model,
        stop_reason: if c.choices.len() > 0 {
            c.choices[0].finish_reason
        } else {
            None
        },
        usage: match c.usage {
            Some(u) => Some((u.prompt_tokens, u.completion_tokens)),
            None => None,
        },
    }
}

/// An exact copy of an optional string.
pub fn clone_opt_string(o: &Option<String>) -> (r: Option<String>)
    ensures
        r == *o,
{
    match o {
        Some(s) => Some(s.clone()),
        None => None,
    }
}

/// An exact copy of a list of strings.
pub fn clone_strings(v: &Vec<String>) -> (r: Vec<String>)
    ensures
        r@ == v@,
{
    let mut out: Vec<String> = Vec::new();
    let mut i: usize = 0;
    while i < v.len()
        invariant
            i <= v.len(),
            out@ == v@.subrange(0, i as int),
        decreases v.len() - i,
    {
        out.push(v[i].clone());
        assert(v@.subrange(0, i + 1) =~= v@.subrange(0, i as int).push(v@[i as int]));
        i = i + 1;
    }
    assert(v@.subrange(0, v@.len() as int) =~= v@);
    out
}

/// An exact copy of an optional list of strings.
pub fn clone_opt_strings(o: &Option<Vec<String>>) -> (r: Option<Vec<String>>)
    ensures
        opt_texts(r) == opt_texts(*o),
{
    match o {
        Some(v) => Some(clone_strings(v)),
        None => None,
    }
}

/// An Anthropic response keeps the id and the model, answers as the assistant in a
/// "message", holds one text block per choice with that choice's content, in order, takes the
/// first choice's finish reason as its stop reason (none without choices), and counts prompt
/// tokens as input and completion tokens as output.
pub proof fn law_anthropic_response_kept(c: ChatResponseView)
    ensures
        ({
            let a = anthropic_of(c);
            &&& a.id == c.id
            &&& a.model == c.model
            &&& a.response_type == "message"@
            &&& a.role == "assistant"@
            &&& a.content.len() == c.choices.len()
            &&& forall|k: int| 0 <= k < c.choices.len() ==> #[trigger] a.content[k] == c.choices[k].message.content
            &&& a.stop_reason == if c.choices.len() > 0 {
                c.choices[0].finish_reason
            } else {
                None
            }
            &&& a.usage == match c.usage {
                Some(u) => Some((u.prompt_tokens, u.completion_tokens)),
                None => None,
            }
        }),
{
}

} // verus!
