//! A plain model of JSON values, and queries on JSON text.
use vstd::prelude::*;

use crate::text::push_char;

verus! {

/// A JSON value. Numbers keep their JSON text; object members keep their order, and a key
/// that occurs more than once stands for its last occurrence.
pub enum JsonValue {
    Null,
    Bool(bool),
    Number(String),
    String(String),
    Array(Vec<JsonValue>),
    Object(Vec<(String, JsonValue)>),
}

/// The mathematical content of a [`JsonValue`].
pub enum JsonView {
    Null,
    Bool(bool),
    Number(Seq<char>),
    String(Seq<char>),
    Array(Seq<JsonView>),
    Object(Seq<(Seq<char>, JsonView)>),
}

/// The view of each element of a sequence of values.
pub open spec fn values_view(s: Seq<JsonValue>) -> Seq<JsonView>
    decreases s,
{
    if s.len() == 0 {
        Seq::empty()
    } else {
        values_view(s.subrange(0, s.len() - 1)).push(s[s.len() - 1].view_of())
    }
}

/// The view of each member of an object's members.
pub open spec fn members_view(s: Seq<(String, JsonValue)>) -> Seq<(Seq<char>, JsonView)>
    decreases s,
{
    if s.len() == 0 {
        Seq::empty()
    } else {
        members_view(s.subrange(0, s.len() - 1)).push((s[s.len() - 1].0@, s[s.len() - 1].1.view_of()))
    }
}

impl JsonValue {
    /// The mathematical content of this value.
    pub open spec fn view_of(&self) -> JsonView
        decreases self,
    {
        match self {
            JsonValue::Null => JsonView::Null,
            JsonValue::Bool(b) => JsonView::Bool(*b),
            JsonValue::Number(n) => JsonView::Number(n@),
            JsonValue::String(t) => JsonView::String(t@),
            JsonValue::Array(items) => JsonView::Array(values_view(items@)),
            JsonValue::Object(members) => JsonView::Object(members_view(members@)),
        }
    }
}

/// The shape of the JSON value found at some place in a document.
#[derive(PartialEq, Eq, Structural, Clone, Copy, Debug)]
pub enum JsonKind {
    Null,
    Bool,
    Number,
    String,
    /// An array, with its number of elements.
    Array(usize),
    Object,
}

/// Object members, read as a map: a later member overrides an earlier one with the same key.
pub open spec fn members_map(members: Seq<(String, JsonValue)>) -> Map<Seq<char>, JsonView>
    decreases members.len(),
{
    if members.len() == 0 {
        Map::empty()
    } else {
        members_map(members.drop_last()).insert(members.last().0@, members.last().1.view_of())
    }
}

/// Adds a member to an object's members: the key now maps to `value`.
pub fn member_insert(members: &mut Vec<(String, JsonValue)>, key: String, value: JsonValue)
    ensures
        members_map(final(members)@) == members_map(old(members)@).insert(key@, value.view_of()),
        final(members)@ == old(members)@.push((key, value)),
{
    members.push((key, value));
    proof {
        assert(final(members)@.drop_last() =~= old(members)@);
    }
}

/// Values built one by one from their views agree with `values_view`.
pub proof fn lemma_values_view_push(s: Seq<JsonValue>, x: JsonValue)
    ensures
        values_view(s.push(x)) == values_view(s).push(x.view_of()),
{
    assert(s.push(x).subrange(0, s.len() as int) =~= s);
}

/// The kind of the value that the JSON pointer `pointer` (RFC 6901) selects in the JSON text
/// `body`; `None` where `body` is not JSON or the pointer selects nothing.
pub uninterp spec fn json_pointer_kind(body: Seq<u8>, pointer: Seq<char>) -> Option<JsonKind>;

/// Parses `body` with `serde_json::from_slice` into a `serde_json::Value`, then selects with
/// `serde_json::Value::pointer`, and reports the kind of what was selected. The result is
/// taken to depend on the two arguments alone; nothing more is claimed of it.
#[verifier::external_body]
pub(crate) fn json_kind_at(body: &[u8], pointer: &str) -> (r: Option<JsonKind>)
    ensures
        r == json_pointer_kind(body@, pointer@),
{
    let value: serde_json::Value = serde_json::from_slice(body).ok()?;
    Some(match value.pointer(pointer)? {
        serde_json::Value::Null => JsonKind::Null,
        serde_json::Value::Bool(_) => JsonKind::Bool,
        serde_json::Value::Number(_) => JsonKind::Number,
        serde_json::Value::String(_) => JsonKind::String,
        serde_json::Value::Array(items) => JsonKind::Array(items.len()),
        serde_json::Value::Object(_) => JsonKind::Object,
    })
}

/// The decimal digit for `d < 10`.
pub open spec fn digit_char(d: nat) -> char {
    (48 + d) as char
}

/// The decimal notation of `n`, without leading zeros.
pub open spec fn decimal(n: nat) -> Seq<char>
    decreases n,
{
    if n < 10 {
        seq![digit_char(n)]
    } else {
        decimal(n / 10).push(digit_char(n % 10))
    }
}

/// Writes `n` in decimal.
pub fn decimal_string(n: usize) -> (r: String)
    ensures
        r@ == decimal(n as nat),
    decreases n,
{
    let d: u8 = (n % 10) as u8;
    let c: char = (48u8 + d) as char;
    if n < 10 {
        let mut s = String::new();
        push_char(&mut s, c);
        assert(s@ =~= seq![digit_char(n as nat)]);
        s
    } else {
        let mut s = decimal_string(n / 10);
        push_char(&mut s, c);
        s
    }
}

} // verus!
