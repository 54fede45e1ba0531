//! JSON objects with text members, written and read by the `serde_json` crate.
use crate::text;
use vstd::prelude::*;

verus! {

/// The members of a JSON object.
#[verifier::external_type_specification]
#[verifier::external_body]
#[verifier::reject_recursive_types(K)]
#[verifier::reject_recursive_types(V)]
pub struct ExJsonMap<K, V>(serde_json::Map<K, V>);

/// A JSON value.
#[verifier::external_type_specification]
#[verifier::external_body]
pub struct ExJsonValue(serde_json::Value);

/// The text members of a JSON value: those of an object whose values are strings, by their keys.
pub uninterp spec fn value_texts(value: serde_json::Value) -> Map<Seq<char>, Seq<char>>;

/// The members of an object that are text, by their keys.
pub uninterp spec fn object_texts(object: serde_json::Map<String, serde_json::Value>) -> Map<
    Seq<char>,
    Seq<char>,
>;

/// Whether all the members of an object are text.
pub uninterp spec fn only_texts(object: serde_json::Map<String, serde_json::Value>) -> bool;

/// How an object with the given members, all of them text, is written down.
pub uninterp spec fn object_text(members: Map<Seq<char>, Seq<char>>) -> Seq<char>;

/// The text members of the JSON value that the bytes stand for, or the message of the error that
/// comes in its place.
pub uninterp spec fn parsed_texts(bytes: Seq<u8>) -> Result<Map<Seq<char>, Seq<char>>, Seq<char>>;

/// No members.
pub open spec fn no_texts() -> Map<Seq<char>, Seq<char>> {
    Map::empty()
}

/// `serde_json::Map::new`: no members.
#[verifier::external_body]
pub(crate) fn object_new() -> (r: serde_json::Map<String, serde_json::Value>)
    ensures
        object_texts(r) == no_texts(),
        only_texts(r),
{
    serde_json::Map::new()
}

/// `serde_json::Map::insert`, with a string as the value: the member with the key has that value
/// afterwards, and the others stay as they are.
#[verifier::external_body]
pub(crate) fn object_insert(
    object: &mut serde_json::Map<String, serde_json::Value>,
    key: &str,
    value: &str,
)
    ensures
        object_texts(*final(object)) == object_texts(*old(object)).insert(key@, value@),
        only_texts(*old(object)) ==> only_texts(*final(object)),
{
    object.insert(key.to_string(), serde_json::Value::String(value.to_string()));
}

/// `to_string` of a `serde_json::Value` that is an object whose members are all text: how it is written
/// down, which its members alone decide. What is written reads back as the same members.
#[verifier::external_body]
pub(crate) fn object_write(object: serde_json::Map<String, serde_json::Value>) -> (r: String)
    requires
        only_texts(object),
    ensures
        r@ == object_text(object_texts(object)),
        parsed_texts(vstd::utf8::encode_utf8(r@)) is Ok,
        parsed_texts(vstd::utf8::encode_utf8(r@))->Ok_0 == object_texts(object),
{
    serde_json::Value::Object(object).to_string()
}

/// `serde_json::from_slice`: the value that the bytes stand for, or an error.
#[verifier::external_body]
pub(crate) fn parse(bytes: &[u8]) -> (r: Result<serde_json::Value, String>)
    ensures
        match r {
            Ok(value) => {
                &&& parsed_texts(bytes@) is Ok
                &&& parsed_texts(bytes@)->Ok_0 == value_texts(value)
            },
            Err(e) => parsed_texts(bytes@) is Err && parsed_texts(bytes@)->Err_0 == e@,
        },
{
    serde_json::from_slice::<serde_json::Value>(bytes).map_err(|e| e.to_string())
}

/// `serde_json::Value::get` with a key, and `as_str` of the member that it gives: the member's text,
/// where the value is an object with such a member and the member is a string.
#[verifier::external_body]
pub(crate) fn text_member(value: &serde_json::Value, key: &str) -> (r: Option<String>)
    ensures
        text::opt_text(r) == (if value_texts(*value).contains_key(key@) {
            Some(value_texts(*value)[key@])
        } else {
            None
        }),
{
    value.get(key).and_then(|v| v.as_str()).map(|s| s.to_string())
}

} // verus!
