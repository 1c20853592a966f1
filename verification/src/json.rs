//! A JSON document as plain values, and the lookups that feed decoding makes in one.
use serde_json::Value;
use vstd::prelude::*;
use vstd::string::*;

verus! {

/// A JSON number, as `serde_json` keeps it: a non-negative integer, a negative integer, or a
/// float (held here by its bits).
#[derive(Clone, Copy, Debug, PartialEq, Eq, Structural)]
pub enum JsonNumber {
    PosInt(u64),
    NegInt(i64),
    Float(u64),
}

/// A JSON document. An object keeps its members in order; a lookup finds the first member
/// under a key.
#[derive(Debug)]
pub enum JsonValue {
    Null,
    Bool(bool),
    Number(JsonNumber),
    String(String),
    Array(Vec<JsonValue>),
    Object(Vec<(String, JsonValue)>),
}

/// The value of the first member of `members` under `key`.
pub open spec fn lookup(members: Seq<(String, JsonValue)>, key: Seq<char>) -> Option<JsonValue>
    decreases members.len(),
{
    if members.len() == 0 {
        None
    } else if members[0].0@ == key {
        Some(members[0].1)
    } else {
        lookup(members.drop_first(), key)
    }
}

/// `value.get(key)`: the member under `key` of an object; none for anything else.
pub open spec fn get_spec(value: JsonValue, key: Seq<char>) -> Option<JsonValue> {
    match value {
        JsonValue::Object(members) => lookup(members@, key),
        _ => None,
    }
}

/// `value.get(key).and_then(|v| v.as_str())`.
pub open spec fn str_at(value: JsonValue, key: Seq<char>) -> Option<Seq<char>> {
    match get_spec(value, key) {
        Some(JsonValue::String(s)) => Some(s@),
        _ => None,
    }
}

/// `value.get(key).and_then(|v| v.as_u64())`.
pub open spec fn u64_at(value: JsonValue, key: Seq<char>) -> Option<u64> {
    match get_spec(value, key) {
        Some(JsonValue::Number(JsonNumber::PosInt(n))) => Some(n),
        _ => None,
    }
}

/// `value.get(key).and_then(|v| v.as_bool())`.
pub open spec fn bool_at(value: JsonValue, key: Seq<char>) -> Option<bool> {
    match get_spec(value, key) {
        Some(JsonValue::Bool(b)) => Some(b),
        _ => None,
    }
}

/// The number under `key`, where there is one (`value.get(key).and_then(|v| v.as_f64())`
/// succeeds exactly on numbers).
pub open spec fn number_at(value: JsonValue, key: Seq<char>) -> Option<JsonNumber> {
    match get_spec(value, key) {
        Some(JsonValue::Number(n)) => Some(n),
        _ => None,
    }
}

/// The value is this text.
pub open spec fn is_text(value: JsonValue, t: Seq<char>) -> bool {
    value matches JsonValue::String(s) && s@ == t
}

impl JsonValue {
    /// `value.get(key)`.
    pub fn get<'a>(&'a self, key: &str) -> (r: Option<&'a JsonValue>)
        ensures
            match r {
                Some(v) => get_spec(*self, key@) == Some(*v),
                None => get_spec(*self, key@) is None,
            },
    {
        match self {
            JsonValue::Object(members) => {
                let n = members.len();
                let wanted = String::from_str(key);
                let mut i: usize = 0;
                proof {
                    assert(members@.subrange(0, n as int) =~= members@);
                }
                while i < n
                    invariant
                        n == members@.len(),
                        i <= n,
                        wanted@ == key@,
                        get_spec(*self, key@) == lookup(members@, key@),
                        lookup(members@, key@) == lookup(members@.subrange(i as int, n as int), key@),
                    decreases n - i,
                {
                    proof {
                        assert(members@.subrange(i as int, n as int).drop_first() =~= members@.subrange(
                            i + 1,
                            n as int,
                        ));
                    }
                    if members[i].0 == wanted {
                        proof {
                            let sub = members@.subrange(i as int, n as int);
                            assert(sub[0] == members@[i as int]);
                            assert(sub[0].0@ == key@);
                            assert(lookup(sub, key@) == Some(sub[0].1));
                        }
                        return Some(&members[i].1);
                    }
                    i = i + 1;
                }
                None
            },
            _ => None,
        }
    }

    /// `value.as_str()`.
    pub fn as_str(&self) -> (r: Option<&str>)
        ensures
            match r {
                Some(t) => *self matches JsonValue::String(s) && s@ == t@,
                None => !(*self is String),
            },
    {
        match self {
            JsonValue::String(s) => Some(s.as_str()),
            _ => None,
        }
    }

    /// `value.as_u64()`.
    pub fn as_u64(&self) -> (r: Option<u64>)
        ensures
            match r {
                Some(n) => *self == JsonValue::Number(JsonNumber::PosInt(n)),
                None => !(*self matches JsonValue::Number(JsonNumber::PosInt(_))),
            },
    {
        match self {
            JsonValue::Number(JsonNumber::PosInt(n)) => Some(*n),
            _ => None,
        }
    }

    /// `value.as_bool()`.
    pub fn as_bool(&self) -> (r: Option<bool>)
        ensures
            match r {
                Some(b) => *self == JsonValue::Bool(b),
                None => !(*self is Bool),
            },
    {
        match self {
            JsonValue::Bool(b) => Some(*b),
            _ => None,
        }
    }

    /// The number, where the value is one.
    pub fn as_number(&self) -> (r: Option<JsonNumber>)
        ensures
            match r {
                Some(n) => *self == JsonValue::Number(n),
                None => !(*self is Number),
            },
    {
        match self {
            JsonValue::Number(n) => Some(*n),
            _ => None,
        }
    }

    /// `value.as_array()`.
    pub fn as_array(&self) -> (r: Option<&Vec<JsonValue>>)
        ensures
            match r {
                Some(items) => *self == JsonValue::Array(*items),
                None => !(*self is Array),
            },
    {
        match self {
            JsonValue::Array(items) => Some(items),
            _ => None,
        }
    }
}

/// `serde_json::Value`, carried through the parse below and never looked into by verified code.
#[verifier::external_type_specification]
#[verifier::external_body]
pub struct OutsideJsonDocument(Value);

/// The document that `serde_json::from_str::<serde_json::Value>` reads from a text, taken over
/// member by member into a `JsonValue`; none where the text is not one JSON document.
pub uninterp spec fn json_from_text(text: Seq<char>) -> Option<JsonValue>;

/// Reads a text with `serde_json::from_str::<serde_json::Value>`. Trusted: the result is what
/// the name `json_from_text` gives for the text, which depends on nothing but the text.
#[verifier::external_body]
pub(crate) fn parse_json_text(text: &str) -> (r: Option<JsonValue>)
    ensures
        r == json_from_text(text@),
{
    serde_json::from_str::<Value>(text).ok().map(|v| document_from(&v))
}

/// Takes a `serde_json::Value` over into a `JsonValue`, variant for variant, keeping the order
/// of an object's members as `serde_json` walks them. Only the parse above calls it; nothing is
/// stated of it on its own.
#[verifier::external_body]
fn document_from(v: &Value) -> JsonValue {
    match v {
        Value::Null => JsonValue::Null,
        Value::Bool(b) => JsonValue::Bool(*b),
        Value::Number(n) => JsonValue::Number(match (n.as_u64(), n.as_i64()) {
            (Some(u), _) => JsonNumber::PosInt(u),
            (_, Some(i)) => JsonNumber::NegInt(i),
            _ => JsonNumber::Float(n.as_f64().unwrap_or_default().to_bits()),
        }),
        Value::String(s) => JsonValue::String(s.clone()),
        Value::Array(items) => JsonValue::Array(items.iter().map(document_from).collect()),
        Value::Object(m) => JsonValue::Object(m.iter().map(|(k, x)| (k.clone(), document_from(x))).collect()),
    }
}

/// A text value from a string slice.
pub fn text_value(t: &str) -> (r: JsonValue)
    ensures
        is_text(r, t@),
{
    JsonValue::String(String::from_str(t))
}

} // verus!
