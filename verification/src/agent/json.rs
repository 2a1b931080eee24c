//! JSON values as plain data.

use crate::text::same_text;
use vstd::prelude::*;

verus! {

/// A JSON number: a whole number where it is one, its text otherwise.
#[derive(Debug, Clone, PartialEq)]
pub enum JsonNumber {
    /// A whole number that is not negative.
    Unsigned(u64),
    /// A negative whole number.
    Signed(i64),
    /// Any other number, as it is written.
    Decimal(String),
}

/// A JSON value. An object holds its members as the map of serde_json hands
/// them out: sorted by name, unless its order-preserving feature is on.
#[derive(Debug)]
pub enum JsonValue {
    Null,
    Bool(bool),
    Number(JsonNumber),
    String(String),
    Array(Vec<JsonValue>),
    Object(Vec<(String, JsonValue)>),
}

#[verifier::external_type_specification]
#[verifier::external_body]
pub struct ExJsonError(serde_json::Error);

#[verifier::external_type_specification]
#[verifier::external_body]
pub struct ExSerdeValue(serde_json::Value);

#[verifier::external_type_specification]
#[verifier::external_body]
pub struct ExSerdeNumber(serde_json::Number);

/// The value that serde_json reads from the JSON text `text`, if it is JSON.
pub uninterp spec fn json_document(text: Seq<char>) -> Option<serde_json::Value>;

/// The value of serde_json as a value of this crate.
pub uninterp spec fn json_value(value: serde_json::Value) -> JsonValue;

/// The value that the JSON text `text` stands for, if it is JSON.
pub open spec fn json_read(text: Seq<char>) -> Option<JsonValue> {
    match json_document(text) {
        Some(value) => Some(json_value(value)),
        None => None,
    }
}

/// `serde_json::Number`: a whole number where `as_u64` or `as_i64` gives
/// one, the number as `to_string` writes it otherwise.
#[verifier::external_body]
fn convert_number(n: &serde_json::Number) -> JsonNumber {
    if let Some(u) = n.as_u64() {
        JsonNumber::Unsigned(u)
    } else if let Some(i) = n.as_i64() {
        JsonNumber::Signed(i)
    } else {
        JsonNumber::Decimal(n.to_string())
    }
}

/// `serde_json::Value`, variant by variant; the members of an object in the
/// order in which its map hands them out. The same value always gives the
/// same result.
#[verifier::external_body]
fn convert_value(value: &serde_json::Value) -> (v: JsonValue)
    ensures
        v == json_value(*value),
{
    match value {
        serde_json::Value::Null => JsonValue::Null,
        serde_json::Value::Bool(b) => JsonValue::Bool(*b),
        serde_json::Value::Number(n) => JsonValue::Number(convert_number(n)),
        serde_json::Value::String(s) => JsonValue::String(s.clone()),
        serde_json::Value::Array(items) => JsonValue::Array(items.iter().map(convert_value).collect()),
        serde_json::Value::Object(members) => JsonValue::Object(
            members.iter().map(|(k, v)| (k.clone(), convert_value(v))).collect(),
        ),
    }
}

/// `serde_json::from_str`: reads `text` as one JSON value. The same text
/// always gives the same value, or is always refused.
#[verifier::external_body]
fn read_json(text: &str) -> (r: Result<serde_json::Value, serde_json::Error>)
    ensures
        r is Ok == json_document(text@) is Some,
        r matches Ok(v) ==> json_document(text@) == Some(v),
{
    serde_json::from_str::<serde_json::Value>(text)
}

/// `serde_json::Error` as `to_string` writes it: why a text is not JSON.
#[verifier::external_body]
fn json_error_text(e: &serde_json::Error) -> String {
    e.to_string()
}

/// Reads `text` as one JSON value, or says why it is none.
pub fn parse(text: &str) -> (r: Result<JsonValue, String>)
    ensures
        match json_read(text@) {
            Some(v) => r == Ok::<JsonValue, String>(v),
            None => r is Err,
        },
{
    match read_json(text) {
        Ok(value) => Ok(convert_value(&value)),
        Err(e) => Err(json_error_text(&e)),
    }
}

/// `a` and `b` are the same JSON value: the same kind of value, with equal
/// truth values, numbers and texts, the same items in the same order, and
/// the same members, by name and value, in the same order.
pub open spec fn same_json(a: JsonValue, b: JsonValue) -> bool
    decreases a,
{
    match (a, b) {
        (JsonValue::Null, JsonValue::Null) => true,
        (JsonValue::Bool(x), JsonValue::Bool(y)) => x == y,
        (JsonValue::Number(x), JsonValue::Number(y)) => x == y,
        (JsonValue::String(x), JsonValue::String(y)) => x@ == y@,
        (JsonValue::Array(x), JsonValue::Array(y)) => x@.len() == y@.len() && forall|i: int|
            0 <= i < x@.len() ==> same_json(#[trigger] x@[i], y@[i]),
        (JsonValue::Object(x), JsonValue::Object(y)) => x@.len() == y@.len() && forall|i: int|
            0 <= i < x@.len() ==> (#[trigger] x@[i]).0@ == y@[i].0@ && same_json(
                x@[i].1,
                y@[i].1,
            ),
        _ => false,
    }
}

impl Clone for JsonValue {
    /// A copy of the value: the same JSON value.
    fn clone(&self) -> (r: Self)
        ensures
            same_json(*self, r),
        decreases self,
    {
        match self {
            JsonValue::Null => JsonValue::Null,
            JsonValue::Bool(b) => JsonValue::Bool(*b),
            JsonValue::Number(n) => JsonValue::Number(
                match n {
                    JsonNumber::Unsigned(u) => JsonNumber::Unsigned(*u),
                    JsonNumber::Signed(i) => JsonNumber::Signed(*i),
                    JsonNumber::Decimal(text) => JsonNumber::Decimal(text.clone()),
                },
            ),
            JsonValue::String(s) => JsonValue::String(s.clone()),
            JsonValue::Array(items) => {
                let mut out: Vec<JsonValue> = Vec::new();
                let mut i: usize = 0;
                while i < items.len()
                    invariant
                        i <= items.len(),
                        out@.len() == i,
                        forall|j: int| 0 <= j < i ==> same_json(#[trigger] items@[j], out@[j]),
                        decreases_to!(*self => *items),
                    decreases items.len() - i,
                {
                    proof {
                        vstd::std_specs::vec::axiom_vec_index_decreases(*items, i as int);
                    }
                    out.push(items[i].clone());
                    i = i + 1;
                }
                JsonValue::Array(out)
            },
            JsonValue::Object(entries) => {
                let mut out: Vec<(String, JsonValue)> = Vec::new();
                let mut i: usize = 0;
                while i < entries.len()
                    invariant
                        i <= entries.len(),
                        out@.len() == i,
                        forall|j: int|
                            0 <= j < i ==> (#[trigger] entries@[j]).0@ == out@[j].0@ && same_json(
                                entries@[j].1,
                                out@[j].1,
                            ),
                        decreases_to!(*self => *entries),
                    decreases entries.len() - i,
                {
                    proof {
                        vstd::std_specs::vec::axiom_vec_index_decreases(*entries, i as int);
                    }
                    out.push((entries[i].0.clone(), entries[i].1.clone()));
                    i = i + 1;
                }
                JsonValue::Object(out)
            },
        }
    }
}

/// The value of the first member of `entries` with the name `key`.
pub open spec fn entry_of(entries: Seq<(String, JsonValue)>, key: Seq<char>) -> Option<JsonValue>
    decreases entries.len(),
{
    if entries.len() == 0 {
        None
    } else if entries[0].0@ == key {
        Some(entries[0].1)
    } else {
        entry_of(entries.drop_first(), key)
    }
}

/// The position of the first member of `entries` with the name `key`, or the
/// number of members.
pub open spec fn entry_index(entries: Seq<(String, JsonValue)>, key: Seq<char>) -> int
    decreases entries.len(),
{
    if entries.len() == 0 {
        0
    } else if entries[0].0@ == key {
        0
    } else {
        1 + entry_index(entries.drop_first(), key)
    }
}

/// What `entry_index` finds, and how it relates to `entry_of`.
pub proof fn lemma_entry_index(entries: Seq<(String, JsonValue)>, key: Seq<char>)
    ensures
        0 <= entry_index(entries, key) <= entries.len(),
        entry_index(entries, key) < entries.len() ==> entries[entry_index(entries, key)].0@ == key
            && entry_of(entries, key) == Some(entries[entry_index(entries, key)].1),
        entry_index(entries, key) == entries.len() ==> entry_of(entries, key) is None,
        forall|j: int| 0 <= j < entry_index(entries, key) ==> (#[trigger] entries[j]).0@ != key,
    decreases entries.len(),
{
    if entries.len() > 0 && entries[0].0@ != key {
        let rest = entries.drop_first();
        lemma_entry_index(rest, key);
        assert forall|j: int| 0 <= j < entry_index(entries, key) implies (#[trigger] entries[j]).0@
            != key by {
            if j > 0 {
                assert(rest[j - 1] == entries[j]);
            }
        }
    }
}

/// Taking a member out leaves the members of other names as they were.
pub proof fn lemma_entry_removed(
    entries: Seq<(String, JsonValue)>,
    at: int,
    key: Seq<char>,
)
    requires
        0 <= at < entries.len(),
        entries[at].0@ != key,
    ensures
        entry_of(entries.remove(at), key) == entry_of(entries, key),
    decreases entries.len(),
{
    let after = entries.remove(at);
    if at > 0 {
        if entries[0].0@ != key {
            assert(after.drop_first() =~= entries.drop_first().remove(at - 1));
            lemma_entry_removed(entries.drop_first(), at - 1, key);
        }
    }
}

impl JsonValue {
    /// The member `key` of an object; nothing for a value of another kind.
    pub open spec fn field(self, key: Seq<char>) -> Option<JsonValue> {
        match self {
            JsonValue::Object(entries) => entry_of(entries@, key),
            _ => None,
        }
    }

    /// The text of a string value.
    pub open spec fn text(self) -> Option<Seq<char>> {
        match self {
            JsonValue::String(s) => Some(s@),
            _ => None,
        }
    }

    /// The text of the member `key`, where it is a string; the empty text
    /// otherwise.
    pub open spec fn text_of(self, key: Seq<char>) -> Seq<char> {
        match self.field(key) {
            Some(JsonValue::String(s)) => s@,
            _ => Seq::empty(),
        }
    }

    /// The member `key` of an object.
    pub fn get(&self, key: &str) -> (r: Option<&JsonValue>)
        ensures
            match r {
                Some(v) => self.field(key@) == Some(*v),
                None => self.field(key@) is None,
            },
    {
        match self {
            JsonValue::Object(entries) => {
                let mut i: usize = 0;
                while i < entries.len()
                    invariant
                        i <= entries.len(),
                        *self == JsonValue::Object(*entries),
                        forall|j: int| 0 <= j < i ==> (#[trigger] entries@[j]).0@ != key@,
                    decreases entries.len() - i,
                {
                    if same_text(entries[i].0.as_str(), key) {
                        proof {
                            lemma_entry_index(entries@, key@);
                        }
                        return Some(&entries[i].1);
                    }
                    i = i + 1;
                }
                proof {
                    lemma_entry_index(entries@, key@);
                }
                None
            },
            _ => None,
        }
    }

    /// The text of a string value.
    pub fn as_str(&self) -> (r: Option<&String>)
        ensures
            crate::text::opt_ref_text(r) == self.text(),
            r matches Some(s) ==> *self == JsonValue::String(*s),
    {
        match self {
            JsonValue::String(s) => Some(s),
            _ => None,
        }
    }

    /// The elements of an array.
    pub fn as_array(&self) -> (r: Option<&Vec<JsonValue>>)
        ensures
            match r {
                Some(items) => *self == JsonValue::Array(*items),
                None => !(self is Array),
            },
    {
        match self {
            JsonValue::Array(items) => Some(items),
            _ => None,
        }
    }

    /// The text of the member `key`, where it is a string; the empty text
    /// otherwise.
    pub fn text_at(&self, key: &str) -> (s: String)
        ensures
            s@ == self.text_of(key@),
    {
        match self.get(key) {
            Some(v) => match v {
                JsonValue::String(s) => s.clone(),
                _ => String::new(),
            },
            None => String::new(),
        }
    }
}

} // verus!
