//! The trusted edge towards `serde_json`. Its values pass through the
//! library unopened; the contracts speak of them through a model, and one
//! thin function stands around each call.

use vstd::prelude::*;

verus! {

/// `serde_json::Value`, which the library carries and never opens.
#[verifier::external_type_specification]
#[verifier::external_body]
pub struct ExValue(serde_json::Value);

/// `serde_json::Error`, which the library only asks for its message.
#[verifier::external_type_specification]
#[verifier::external_body]
pub struct ExJsonError(serde_json::Error);

/// A JSON document as the contracts see it.
pub enum Json {
    Null,
    Bool(bool),
    /// A number, as the decimal text of the double that it widens to. The
    /// library holds no double, so the text that the standard library
    /// displays for it stands in its place.
    Number(Seq<char>),
    Text(Seq<char>),
    Array(Seq<Json>),
    /// An object: its members, each key with its value, in the order in
    /// which the object hands them out.
    Object(Seq<(Seq<char>, Json)>),
}

/// The document that a `serde_json::Value` holds.
pub uninterp spec fn model(v: serde_json::Value) -> Json;

/// The message that a `serde_json::Error` displays.
pub uninterp spec fn message(e: serde_json::Error) -> Seq<char>;

/// What `serde_json::from_slice` makes of a body: the document, or the
/// message of the error with which it refuses the bytes.
pub uninterp spec fn decoded(body: Seq<u8>) -> Result<Json, Seq<char>>;

/// The value of the first member with the given key.
pub open spec fn first_under(ms: Seq<(Seq<char>, Json)>, name: Seq<char>) -> Option<Json>
    decreases ms.len(),
{
    if ms.len() == 0 {
        None
    } else if ms[0].0 == name {
        Some(ms[0].1)
    } else {
        first_under(ms.drop_first(), name)
    }
}

/// The value that an object holds under `name`; `None` where it holds none,
/// and for a document that is no object.
pub open spec fn field(doc: Json, name: Seq<char>) -> Option<Json> {
    match doc {
        Json::Object(ms) => first_under(ms, name),
        _ => None,
    }
}

/// Calls `serde_json::from_slice` for a `Value`. The contract names the
/// outcome and no more: the same bytes always decode to the same document,
/// or are refused with the same message.
#[verifier::external_body]
pub(crate) fn decode(body: &[u8]) -> (r: Result<serde_json::Value, serde_json::Error>)
    ensures
        match r {
            Ok(v) => decoded(body@) == Ok::<Json, Seq<char>>(model(v)),
            Err(e) => decoded(body@) == Err::<Json, Seq<char>>(message(e)),
        },
{
    serde_json::from_slice::<serde_json::Value>(body)
}

/// Calls `to_string` on a `serde_json::Error`, which writes what its
/// `Display` writes: the message.
#[verifier::external_body]
pub(crate) fn describe(e: &serde_json::Error) -> (r: String)
    ensures
        r@ == message(*e),
{
    e.to_string()
}

/// Takes a `serde_json::Value` apart. For `Value::Object` it hands out the
/// entries that `Map::into_iter` yields, in that order; for every other
/// variant `None`.
#[verifier::external_body]
pub(crate) fn into_members(v: serde_json::Value) -> (r: Option<Vec<(String, serde_json::Value)>>)
    ensures
        match model(v) {
            Json::Object(ms) => r is Some && r->Some_0@.len() == ms.len() && forall|i: int|
                0 <= i < ms.len() ==> (#[trigger] r->Some_0@[i]).0@ == ms[i].0 && model(
                    r->Some_0@[i].1,
                ) == ms[i].1,
            _ => r is None,
        },
{
    match v {
        serde_json::Value::Object(map) => Some(map.into_iter().collect()),
        _ => None,
    }
}

/// Calls `Value::get` with a string index: the value under that key of an
/// object; `None` for a key that the object lacks, and for a value that is
/// no object. An object holds a key at most once.
#[verifier::external_body]
pub(crate) fn get_field<'a>(v: &'a serde_json::Value, name: &str) -> (r: Option<
    &'a serde_json::Value,
>)
    ensures
        match r {
            Some(found) => field(model(*v), name@) == Some(model(*found)),
            None => field(model(*v), name@) is None,
        },
{
    v.get(name)
}

/// Calls `Value::as_f64`, which gives a double for a JSON number and `None`
/// for every other value, and hands the double out as the text that its
/// `Display` writes.
#[verifier::external_body]
pub(crate) fn number_text(v: &serde_json::Value) -> (r: Option<String>)
    ensures
        match model(*v) {
            Json::Number(text) => r is Some && r->Some_0@ == text,
            _ => r is None,
        },
{
    match v.as_f64() {
        Some(x) => Some(x.to_string()),
        None => None,
    }
}

} // verus!
