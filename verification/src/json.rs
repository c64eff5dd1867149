//! JSON values, as far as the output of Nix commands is looked into.
use vstd::prelude::*;

use crate::names::{lemma_position_is, lemma_position_of, lookup};
use crate::text::{is_shown_as, opt_str, same_text};

verus! {

/// A JSON value. Of numbers it is only known that they are numbers.
#[derive(Debug)]
pub enum Json {
    Null,
    Bool(bool),
    Number,
    Text(String),
    Array(Vec<Json>),
    Object(Vec<(String, Json)>),
}

/// What a JSON value is. The entries of an object have an order.
pub enum JsonValue {
    Null,
    Bool(bool),
    Number,
    Text(Seq<char>),
    Array(Seq<JsonValue>),
    Object(Seq<(Seq<char>, JsonValue)>),
}

/// The values of a list.
pub open spec fn json_values(items: Seq<Json>) -> Seq<JsonValue>
    decreases items,
{
    if items.len() == 0 {
        Seq::empty()
    } else {
        json_values(items.drop_last()).push(items.last().value())
    }
}

/// The entries of an object.
pub open spec fn json_entries(entries: Seq<(String, Json)>) -> Seq<(Seq<char>, JsonValue)>
    decreases entries,
{
    if entries.len() == 0 {
        Seq::empty()
    } else {
        json_entries(entries.drop_last()).push((entries.last().0@, entries.last().1.value()))
    }
}

impl Json {
    /// What this value is.
    pub open spec fn value(self) -> JsonValue
        decreases self,
    {
        match self {
            Json::Null => JsonValue::Null,
            Json::Bool(b) => JsonValue::Bool(b),
            Json::Number => JsonValue::Number,
            Json::Text(text) => JsonValue::Text(text@),
            Json::Array(items) => JsonValue::Array(json_values(items@)),
            Json::Object(entries) => JsonValue::Object(json_entries(entries@)),
        }
    }
}

impl JsonValue {
    /// What an object holds under a name.
    pub open spec fn get(self, name: Seq<char>) -> Option<JsonValue> {
        match self {
            JsonValue::Object(entries) => lookup(entries, name),
            _ => None,
        }
    }

    /// The text, where the value is one.
    pub open spec fn text(self) -> Option<Seq<char>> {
        match self {
            JsonValue::Text(text) => Some(text),
            _ => None,
        }
    }

    /// The entries, where the value is an object.
    pub open spec fn entries(self) -> Option<Seq<(Seq<char>, JsonValue)>> {
        match self {
            JsonValue::Object(entries) => Some(entries),
            _ => None,
        }
    }
}

/// The error of the functions of `serde_json` that read a text.
#[verifier::external_type_specification]
#[verifier::external_body]
pub struct ExJsonError(serde_json::Error);

/// A JSON value of `serde_json`.
#[verifier::external_type_specification]
#[verifier::external_body]
pub struct ExJsonValue(serde_json::Value);

/// The value that bytes hold, as `serde_json::from_slice` reads it from them, or
/// what is shown of its error where they are not JSON.
pub uninterp spec fn json_of_bytes(bytes: Seq<u8>) -> Result<JsonValue, Seq<char>>;

/// What is shown of the error that `serde_json::from_slice` gives for bytes from
/// which it cannot read a list.
pub uninterp spec fn json_list_fault(bytes: Seq<u8>) -> Seq<char>;

/// The value that a text holds, as `serde_json::from_str` reads it from the text,
/// or what is shown of its error where it is not JSON.
pub uninterp spec fn json_of_text(text: Seq<char>) -> Result<JsonValue, Seq<char>>;

/// A `serde_json::Value` as a `Json`, variant by variant, with the entries of a
/// `serde_json::Map` in the order in which it gives them. Of a number nothing is
/// kept.
#[verifier::external_body]
fn json_of(value: serde_json::Value) -> (r: Json) {
    match value {
        serde_json::Value::Null => Json::Null,
        serde_json::Value::Bool(b) => Json::Bool(b),
        serde_json::Value::Number(_) => Json::Number,
        serde_json::Value::String(text) => Json::Text(text),
        serde_json::Value::Array(items) => Json::Array(items.into_iter().map(json_of).collect()),
        serde_json::Value::Object(map) => {
            Json::Object(map.into_iter().map(|(name, v)| (name, json_of(v))).collect())
        },
    }
}

/// `serde_json::from_slice` for a `serde_json::Value`: the value that the bytes
/// hold, and an error where they are not JSON. Which value that is, and how the
/// error is shown, is left to the name `json_of_bytes`.
#[verifier::external_body]
pub(crate) fn parse_bytes(bytes: &[u8]) -> (r: Result<Json, serde_json::Error>)
    ensures
        match r {
            Ok(json) => json_of_bytes(bytes@) == Ok::<_, Seq<char>>(json.value()),
            Err(error) => json_of_bytes(bytes@) matches Err(fault) && is_shown_as(error, fault),
        },
{
    serde_json::from_slice::<serde_json::Value>(bytes).map(json_of)
}

/// `serde_json::from_slice` for a list of `serde_json::Value`: the elements of
/// the array that the bytes hold, and an error where they hold none. How the error
/// is shown is left to the name `json_list_fault`.
#[verifier::external_body]
pub(crate) fn parse_bytes_as_list(bytes: &[u8]) -> (r: Result<Vec<Json>, serde_json::Error>)
    ensures
        match r {
            Ok(items) => json_of_bytes(bytes@) == Ok::<_, Seq<char>>(
                JsonValue::Array(json_values(items@)),
            ),
            Err(error) => {
                &&& !(json_of_bytes(bytes@) matches Ok(JsonValue::Array(_)))
                &&& is_shown_as(error, json_list_fault(bytes@))
            },
        },
{
    serde_json::from_slice::<Vec<serde_json::Value>>(bytes).map(
        |items| items.into_iter().map(json_of).collect(),
    )
}

/// `serde_json::from_str` for a `serde_json::Value`: the value that the text
/// holds, and an error where it is not JSON. Which value that is, and how the error
/// is shown, is left to the name `json_of_text`.
#[verifier::external_body]
pub(crate) fn parse_text(text: &str) -> (r: Result<Json, serde_json::Error>)
    ensures
        match r {
            Ok(json) => json_of_text(text@) == Ok::<_, Seq<char>>(json.value()),
            Err(error) => json_of_text(text@) matches Err(fault) && is_shown_as(error, fault),
        },
{
    serde_json::from_str::<serde_json::Value>(text).map(json_of)
}

/// The entries of an object, one by one.
pub proof fn lemma_json_entries(entries: Seq<(String, Json)>)
    ensures
        json_entries(entries).len() == entries.len(),
        forall|i: int|
            0 <= i < entries.len() ==> #[trigger] json_entries(entries)[i] == (
                entries[i].0@,
                entries[i].1.value(),
            ),
    decreases entries.len(),
{
    if entries.len() > 0 {
        lemma_json_entries(entries.drop_last());
    }
}

/// The values of a list, one by one.
pub proof fn lemma_json_values(items: Seq<Json>)
    ensures
        json_values(items).len() == items.len(),
        forall|i: int| 0 <= i < items.len() ==> #[trigger] json_values(items)[i] == items[i].value(),
    decreases items.len(),
{
    if items.len() > 0 {
        lemma_json_values(items.drop_last());
    }
}

impl Json {
    /// The text, where the value is one.
    pub fn as_text(&self) -> (r: Option<&str>)
        ensures
            opt_str(r) == self.value().text(),
    {
        match self {
            Json::Text(text) => Some(text.as_str()),
            _ => None,
        }
    }

    /// The entries, where the value is an object.
    pub fn as_entries(&self) -> (r: Option<&Vec<(String, Json)>>)
        ensures
            r is Some <==> self.value().entries() is Some,
            r matches Some(entries) ==> self.value().entries() == Some(json_entries(entries@)),
    {
        match self {
            Json::Object(entries) => Some(entries),
            _ => None,
        }
    }

    /// What an object holds under a name.
    pub fn get(&self, name: &str) -> (r: Option<&Json>)
        ensures
            r is Some <==> self.value().get(name@) is Some,
            r matches Some(json) ==> self.value().get(name@) == Some(json.value()),
    {
        match self {
            Json::Object(entries) => {
                let mut i: usize = 0;
                proof {
                    lemma_json_entries(entries@);
                }
                while i < entries.len()
                    invariant
                        i <= entries@.len() == json_entries(entries@).len(),
                        forall|j: int|
                            0 <= j < entries@.len() ==> #[trigger] json_entries(entries@)[j] == (
                                entries@[j].0@,
                                entries@[j].1.value(),
                            ),
                        forall|j: int|
                            0 <= j < i ==> (#[trigger] json_entries(entries@)[j]).0 != name@,
                        self.value() == JsonValue::Object(json_entries(entries@)),
                    decreases entries@.len() - i,
                {
                    if same_text(entries[i].0.as_str(), name) {
                        proof {
                            assert(json_entries(entries@)[i as int].0 == name@);
                            lemma_position_is(json_entries(entries@), name@, i as int);
                        }
                        return Some(&entries[i].1);
                    }
                    i += 1;
                }
                proof {
                    lemma_position_of(json_entries(entries@), name@);
                }
                None
            },
            _ => None,
        }
    }
}

} // verus!
