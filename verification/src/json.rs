use vstd::prelude::*;
use crate::models::opt_view;
use crate::text::{chars_of, same_chars};

verus! {

#[verifier::external_type_specification]
#[verifier::external_body]
pub struct ExSerdeJsonValue(serde_json::Value);

/// A JSON document as plain values. Object members keep the order in which
/// the parser hands them over; their keys are distinct.
#[derive(Debug)]
pub enum JsonValue {
    Null,
    Bool(bool),
    Number(String),
    Str(String),
    Array(Vec<JsonValue>),
    Object(Vec<(String, JsonValue)>),
}

/// What `serde_json::from_str::<serde_json::Value>` makes of a text, as a
/// `JsonValue`; `None` where the text is not one JSON document.
pub uninterp spec fn json_parse(text: Seq<char>) -> Option<JsonValue>;

/// Changes a `serde_json::Value` into a `JsonValue`, variant for variant.
#[verifier::external_body]
fn from_serde(v: serde_json::Value) -> JsonValue {
    match v {
        serde_json::Value::Null => JsonValue::Null,
        serde_json::Value::Bool(b) => JsonValue::Bool(b),
        serde_json::Value::Number(n) => JsonValue::Number(n.to_string()),
        serde_json::Value::String(s) => JsonValue::Str(s),
        serde_json::Value::Array(a) => JsonValue::Array(a.into_iter().map(from_serde).collect()),
        serde_json::Value::Object(m) => JsonValue::Object(
            m.into_iter().map(|(k, x)| (k, from_serde(x))).collect(),
        ),
    }
}

/// Parses `text` with `serde_json::from_str::<serde_json::Value>`. The result
/// is named `json_parse(text)`: nothing is claimed of what the parser makes of
/// a given text.
#[verifier::external_body]
pub(crate) fn parse_json(text: &str) -> (r: Option<JsonValue>)
    ensures
        r == json_parse(text@),
{
    match serde_json::from_str::<serde_json::Value>(text) {
        Ok(v) => Some(from_serde(v)),
        Err(_) => None,
    }
}

/// Index of the first member of `entries` whose key is `key`.
pub open spec fn member_index(entries: Seq<(String, JsonValue)>, key: Seq<char>) -> Option<int>
    decreases entries.len(),
{
    if entries.len() == 0 {
        None
    } else {
        match member_index(entries.drop_last(), key) {
            Some(i) => Some(i),
            None => if entries.last().0@ == key {
                Some(entries.len() - 1)
            } else {
                None
            },
        }
    }
}

/// The member `key` of an object, as `serde_json::Value::get` finds it;
/// `None` for a value that is no object or has no such member.
pub open spec fn member(v: JsonValue, key: Seq<char>) -> Option<JsonValue> {
    match v {
        JsonValue::Object(entries) => match member_index(entries@, key) {
            Some(i) => Some(entries@[i].1),
            None => None,
        },
        _ => None,
    }
}

/// The text of a string value, as `serde_json::Value::as_str` gives it.
pub open spec fn str_value(v: Option<JsonValue>) -> Option<Seq<char>> {
    match v {
        Some(JsonValue::Str(s)) => Some(s@),
        _ => None,
    }
}

proof fn lemma_member_index_prefix(entries: Seq<(String, JsonValue)>, key: Seq<char>, i: int)
    requires
        0 <= i <= entries.len(),
        forall|j: int| 0 <= j < i ==> (#[trigger] entries[j]).0@ != key,
    ensures
        member_index(entries.take(i), key).is_none(),
    decreases i,
{
    if i > 0 {
        assert(entries.take(i).drop_last() =~= entries.take(i - 1));
        lemma_member_index_prefix(entries, key, i - 1);
    }
}

proof fn lemma_member_index_found(entries: Seq<(String, JsonValue)>, key: Seq<char>, i: int)
    requires
        0 <= i < entries.len(),
        forall|j: int| 0 <= j < i ==> (#[trigger] entries[j]).0@ != key,
        entries[i].0@ == key,
    ensures
        member_index(entries, key) == Some(i),
    decreases entries.len(),
{
    if i < entries.len() - 1 {
        lemma_member_index_found(entries.drop_last(), key, i);
    } else {
        lemma_member_index_prefix(entries, key, i);
        assert(entries.take(i) =~= entries.drop_last());
    }
}

/// The member `key` of `v`, if `v` is an object that has one.
pub fn get_member<'a>(v: &'a JsonValue, key: &str) -> (r: Option<&'a JsonValue>)
    ensures
        match r {
            Some(x) => member(*v, key@) == Some(*x),
            None => member(*v, key@).is_none(),
        },
{
    match v {
        JsonValue::Object(entries) => {
            let k = chars_of(key);
            let mut i: usize = 0;
            while i < entries.len()
                invariant
                    *v == JsonValue::Object(*entries),
                    k@ == key@,
                    i <= entries.len(),
                    forall|j: int| 0 <= j < i ==> (#[trigger] entries@[j]).0@ != key@,
                decreases entries.len() - i,
            {
                let name = chars_of(entries[i].0.as_str());
                if same_chars(&name, &k) {
                    proof {
                        lemma_member_index_found(entries@, key@, i as int);
                    }
                    return Some(&entries[i].1);
                }
                i = i + 1;
            }
            proof {
                lemma_member_index_prefix(entries@, key@, entries@.len() as int);
                assert(entries@.take(entries@.len() as int) =~= entries@);
            }
            None
        },
        _ => None,
    }
}

/// The text of `v` if it is a string value.
pub fn as_text(v: Option<&JsonValue>) -> (r: Option<String>)
    ensures
        opt_view(r) == str_value(match v {
            Some(x) => Some(*x),
            None => None,
        }),
{
    match v {
        Some(JsonValue::Str(s)) => Some(s.clone()),
        _ => None,
    }
}

/// The string member `key` of `v`.
pub fn text_member(v: &JsonValue, key: &str) -> (r: Option<String>)
    ensures
        opt_view(r) == str_value(member(*v, key@)),
{
    as_text(get_member(v, key))
}

} // verus!
