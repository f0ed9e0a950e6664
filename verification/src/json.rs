//! JSON documents as plain values, read with `serde_json`.
use vstd::prelude::*;
use vstd::string::*;

verus! {

/// A JSON value. Numbers keep their text as `serde_json` writes them; an
/// object keeps its members in the order `serde_json` gives them, each key
/// once.
#[derive(Debug)]
pub enum JsonValue {
    Null,
    Bool(bool),
    Number(String),
    Str(String),
    Array(Vec<JsonValue>),
    Object(Vec<(String, JsonValue)>),
}

#[verifier::external_type_specification]
#[verifier::external_body]
pub struct ExSerdeJsonValue(serde_json::Value);

/// What `serde_json::from_str::<serde_json::Value>` makes of a text, as a
/// `JsonValue`; `None` where it reports an error.
pub uninterp spec fn serde_json_document(text: Seq<char>) -> Option<JsonValue>;

/// Moves a `serde_json::Value` into a `JsonValue`, member by member.
#[verifier::external_body]
fn json_from_serde(v: serde_json::Value) -> JsonValue {
    match v {
        serde_json::Value::Null => JsonValue::Null,
        serde_json::Value::Bool(b) => JsonValue::Bool(b),
        serde_json::Value::Number(n) => JsonValue::Number(n.to_string()),
        serde_json::Value::String(s) => JsonValue::Str(s),
        serde_json::Value::Array(a) => JsonValue::Array(a.into_iter().map(json_from_serde).collect()),
        serde_json::Value::Object(m) => JsonValue::Object(
            m.into_iter().map(|(k, x)| (k, json_from_serde(x))).collect(),
        ),
    }
}

/// Calls `serde_json::from_str::<serde_json::Value>` on `text`. The result
/// is named (`serde_json_document`): it depends on the text alone. Nothing
/// more is claimed of the JSON grammar.
#[verifier::external_body]
pub(crate) fn parse_json(text: &str) -> (r: Option<JsonValue>)
    ensures
        r == serde_json_document(text@),
{
    serde_json::from_str::<serde_json::Value>(text).ok().map(json_from_serde)
}

/// The value of the first member named `key`.
pub open spec fn member_value(members: Seq<(String, JsonValue)>, key: Seq<char>) -> Option<JsonValue>
    decreases members.len(),
{
    if members.len() == 0 {
        None
    } else if members[0].0@ == key {
        Some(members[0].1)
    } else {
        member_value(members.drop_first(), key)
    }
}

/// The member `key` of an object; nothing for any other value.
pub open spec fn json_get(v: JsonValue, key: Seq<char>) -> Option<JsonValue> {
    match v {
        JsonValue::Object(members) => member_value(members@, key),
        _ => None,
    }
}

/// The texts of the string items of an array, in order; other items are
/// skipped.
pub open spec fn string_items(items: Seq<JsonValue>) -> Seq<Seq<char>>
    decreases items.len(),
{
    if items.len() == 0 {
        Seq::empty()
    } else {
        let rest = string_items(items.drop_last());
        match items.last() {
            JsonValue::Str(s) => rest.push(s@),
            _ => rest,
        }
    }
}

pub fn text_eq(a: &str, b: &str) -> (r: bool)
    ensures
        r == (a@ == b@),
{
    let n = a.unicode_len();
    if n != b.unicode_len() {
        return false;
    }
    let mut i: usize = 0;
    while i < n
        invariant
            i <= n == a@.len() == b@.len(),
            forall|j: int| 0 <= j < i ==> a@[j] == b@[j],
        decreases n - i,
    {
        if a.get_char(i) != b.get_char(i) {
            return false;
        }
        i = i + 1;
    }
    assert(a@ =~= b@);
    true
}

impl JsonValue {
    /// The member `key` of an object.
    pub fn get(&self, key: &str) -> (r: Option<&JsonValue>)
        ensures
            match r {
                Some(x) => json_get(*self, key@) == Some(*x),
                None => json_get(*self, key@) is None,
            },
    {
        match self {
            JsonValue::Object(members) => {
                let mut i: usize = 0;
                assert(members@.skip(0) =~= members@);
                while i < members.len()
                    invariant
                        0 <= i <= members@.len(),
                        member_value(members@, key@) == member_value(members@.skip(i as int), key@),
                        json_get(*self, key@) == member_value(members@, key@),
                    decreases members.len() - i,
                {
                    assert(members@.skip(i as int).drop_first() =~= members@.skip(i + 1));
                    assert(members@.skip(i as int)[0] == members@[i as int]);
                    if text_eq(members[i].0.as_str(), key) {
                        return Some(&members[i].1);
                    }
                    i = i + 1;
                }
                None
            },
            _ => None,
        }
    }

    /// The texts of the string items of an array (`None` for any other
    /// value).
    pub fn string_items(&self) -> (r: Option<Vec<String>>)
        ensures
            match *self {
                JsonValue::Array(items) => r matches Some(v) && v@.map_values(|s: String| s@)
                    == string_items(items@),
                _ => r is None,
            },
    {
        match self {
            JsonValue::Array(items) => {
                let mut out: Vec<String> = Vec::new();
                let mut i: usize = 0;
                while i < items.len()
                    invariant
                        0 <= i <= items@.len(),
                        out@.map_values(|s: String| s@) == string_items(items@.take(i as int)),
                    decreases items.len() - i,
                {
                    assert(items@.take(i + 1).drop_last() =~= items@.take(i as int));
                    match &items[i] {
                        JsonValue::Str(s) => {
                            out.push(s.clone());
                            assert(out@.map_values(|s: String| s@) =~= string_items(
                                items@.take(i as int),
                            ).push(s@));
                        },
                        _ => {},
                    }
                    i = i + 1;
                }
                assert(items@.take(items@.len() as int) =~= items@);
                Some(out)
            },
            _ => None,
        }
    }
}

} // verus!
