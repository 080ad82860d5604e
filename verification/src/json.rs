//! JSON values of the `serde_json` crate.
use crate::text;
use serde_json::Value;
use vstd::prelude::*;

verus! {

/// `serde_json::Value`, a JSON value.
#[verifier::external_type_specification]
#[verifier::external_body]
pub struct ExValue(serde_json::Value);

/// What an object has under a name.
pub enum JsonMember {
    Text(Seq<char>),
    /// Anything else, as it is written.
    Other(Seq<char>),
}

/// A JSON value.
pub enum JsonContents {
    /// What the object has under each of its names.
    Object(Map<Seq<char>, JsonMember>),
    /// Anything else, as it is written.
    Other(Seq<char>),
}

/// What a JSON value holds.
pub uninterp spec fn json_contents(value: Value) -> JsonContents;

/// How an object with these members is written. The crate, without its feature `preserve_order`,
/// keeps them in the order of their names, so that nothing else decides.
pub uninterp spec fn object_text(members: Map<Seq<char>, JsonMember>) -> Seq<char>;

/// How a JSON value is written.
pub open spec fn json_text(contents: JsonContents) -> Seq<char> {
    match contents {
        JsonContents::Object(members) => object_text(members),
        JsonContents::Other(written) => written,
    }
}

/// The text that an object has under a name; `None` where the value is no object, or has nothing
/// or no text under the name.
pub open spec fn text_under(contents: JsonContents, name: Seq<char>) -> Option<Seq<char>> {
    match contents {
        JsonContents::Object(members) => if members.contains_key(name) {
            match members[name] {
                JsonMember::Text(found) => Some(found),
                JsonMember::Other(_) => None,
            }
        } else {
            None
        },
        JsonContents::Other(_) => None,
    }
}

/// An object with a text under a name. What is no object stays as it is.
pub open spec fn with_text_under(
    contents: JsonContents,
    name: Seq<char>,
    value: Seq<char>,
) -> JsonContents {
    match contents {
        JsonContents::Object(members) => JsonContents::Object(
            members.insert(name, JsonMember::Text(value)),
        ),
        JsonContents::Other(_) => contents,
    }
}

/// `Value::clone`: a value that holds the same.
#[verifier::external_body]
pub(crate) fn copy(value: &Value) -> (r: Value)
    ensures
        json_contents(r) == json_contents(*value),
{
    value.clone()
}

/// `Value::as_object`, `Map::get` and `Value::as_str`: the text under a name.
#[verifier::external_body]
pub(crate) fn read_text(value: &Value, name: &str) -> (r: Option<String>)
    ensures
        text::optional_text(r) == text_under(json_contents(*value), name@),
{
    value.as_object()?.get(name)?.as_str().map(str::to_owned)
}

/// `Value::as_object_mut` and `Map::insert`: the object has the text under the name, and under
/// every other name what it had.
#[verifier::external_body]
pub(crate) fn write_text(value: &mut Value, name: &str, text: &str)
    ensures
        json_contents(*final(value)) == with_text_under(json_contents(*old(value)), name@, text@),
{
    if let Some(object) = value.as_object_mut() {
        object.insert(name.to_owned(), Value::String(text.to_owned()));
    }
}

/// `Value::to_string`: how the value is written.
#[verifier::external_body]
pub(crate) fn to_text(value: &Value) -> (r: String)
    ensures
        match json_contents(*value) {
            JsonContents::Object(members) => r@ == object_text(members),
            JsonContents::Other(written) => r@ == written,
        },
{
    value.to_string()
}

} // verus!
