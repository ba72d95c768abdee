//! JSON documents: `serde_json::Value`, with what it holds as a tree of plain values.
use vstd::prelude::*;

verus! {

/// A JSON document.
#[verifier::external_type_specification]
#[verifier::external_body]
pub struct ExValue(serde_json::Value);

/// What a JSON document holds. A number that is no integer is given by the text that it is shown as.
pub enum Json {
    Null,
    Bool(bool),
    Integer(int),
    Fraction(Seq<char>),
    Text(Seq<char>),
    Array(Seq<Json>),
    Object(Map<Seq<char>, Json>),
}

impl Json {
    /// The document under a key: null where there is no such key, or no keys at all.
    pub open spec fn at(self, key: Seq<char>) -> Json {
        match self {
            Json::Object(members) => if members.contains_key(key) {
                members[key]
            } else {
                Json::Null
            },
            _ => Json::Null,
        }
    }

    /// Whether there is a document under a key.
    pub open spec fn has(self, key: Seq<char>) -> bool {
        self matches Json::Object(members) && members.contains_key(key)
    }

    /// The text, where the document is one.
    pub open spec fn text(self) -> Option<Seq<char>> {
        match self {
            Json::Text(text) => Some(text),
            _ => None,
        }
    }

    /// The items, where the document is an array.
    pub open spec fn items(self) -> Option<Seq<Json>> {
        match self {
            Json::Array(items) => Some(items),
            _ => None,
        }
    }
}

/// What a `serde_json::Value` holds.
pub uninterp spec fn contents(value: serde_json::Value) -> Json;

/// What each of a run of documents holds.
pub open spec fn all_contents(values: Seq<serde_json::Value>) -> Seq<Json> {
    values.map_values(|value: serde_json::Value| contents(value))
}

/// The document that a run of bytes spells, or the reason why it spells none.
pub uninterp spec fn parsed(bytes: Seq<u8>) -> Result<Json, Seq<char>>;

/// Reads a document with `serde_json::from_slice`; an error is given in its `Display` form, which says what is
/// wrong and at which line and column. Which bytes spell which document is the grammar of JSON, and is left to
/// the name `parsed`, as is the wording of the reasons.
#[verifier::external_body]
pub(crate) fn parse(bytes: &[u8]) -> (document: Result<serde_json::Value, String>)
    ensures
        match document {
            Ok(value) => parsed(bytes@) == Ok::<Json, Seq<char>>(contents(value)),
            Err(reason) => parsed(bytes@) == Err::<Json, Seq<char>>(reason@),
        },
{
    match serde_json::from_slice(bytes) {
        Ok(value) => Ok(value),
        Err(error) => Err(error.to_string()),
    }
}

/// The compact text of a document.
pub uninterp spec fn compact(document: Json) -> Seq<char>;

/// The `Display` form of a `serde_json::Value`, which is its compact JSON text: without spaces, and with
/// the keys of each object in ascending order. How the text is spelt is left to the name `compact`.
#[verifier::external_body]
pub(crate) fn compact_text(value: &serde_json::Value) -> (text: String)
    ensures
        text@ == compact(contents(*value)),
{
    value.to_string()
}

/// Indexes a document by a string, `&value[key]`: the document under the key, or null where the
/// document is no object or lacks the key.
#[verifier::external_body]
pub(crate) fn at<'a>(value: &'a serde_json::Value, key: &str) -> (found: &'a serde_json::Value)
    ensures
        contents(*found) == contents(*value).at(key@),
{
    &value[key]
}

/// `serde_json::Value::get` by a string: the document under the key, or `None` where the document is
/// no object or lacks the key.
#[verifier::external_body]
pub(crate) fn get<'a>(value: &'a serde_json::Value, key: &str) -> (found: Option<&'a serde_json::Value>)
    ensures
        match found {
            Some(v) => contents(*value).has(key@) && contents(*v) == contents(*value).at(key@),
            None => !contents(*value).has(key@),
        },
{
    value.get(key)
}

/// `serde_json::Value::as_str`: the text, where the document is one.
#[verifier::external_body]
pub(crate) fn as_text(value: &serde_json::Value) -> (text: Option<&str>)
    ensures
        match text {
            Some(t) => contents(*value).text() == Some(t@),
            None => contents(*value).text() is None,
        },
{
    value.as_str()
}

/// `serde_json::Value::as_array`: the items, where the document is an array.
#[verifier::external_body]
pub(crate) fn as_items(value: &serde_json::Value) -> (items: Option<&Vec<serde_json::Value>>)
    ensures
        match items {
            Some(list) => contents(*value).items() == Some(all_contents(list@)),
            None => contents(*value).items() is None,
        },
{
    value.as_array()
}

/// An object without keys: `serde_json::Value::Object` of `serde_json::Map::new`.
#[verifier::external_body]
pub(crate) fn empty_object() -> (value: serde_json::Value)
    ensures
        contents(value) == Json::Object(Map::empty()),
{
    serde_json::Value::Object(serde_json::Map::new())
}

/// Assigns through an index by a string, `object[key] = value`: the key gets the value, in place of
/// the one that it had. On other documents than objects and null the outside call panics.
#[verifier::external_body]
pub(crate) fn set_member(object: &mut serde_json::Value, key: &str, value: serde_json::Value)
    requires
        contents(*old(object)) is Object,
    ensures
        contents(*final(object)) == Json::Object(contents(*old(object))->Object_0.insert(key@, contents(value))),
{
    object[key] = value;
}

/// A text as a document: `serde_json::Value::from` a string slice.
#[verifier::external_body]
pub(crate) fn from_text(text: &str) -> (value: serde_json::Value)
    ensures
        contents(value) == Json::Text(text@),
{
    serde_json::Value::from(text)
}

/// An integer as a document: `serde_json::Value::from` an `i64`.
#[verifier::external_body]
pub(crate) fn from_integer(n: i64) -> (value: serde_json::Value)
    ensures
        contents(value) == Json::Integer(n as int),
{
    serde_json::Value::from(n)
}

} // verus!
