//! JSON objects whose members are strings, written by `serde_json`.

use vstd::prelude::*;

verus! {

/// `serde_json::Map`, the object of a JSON document. Nothing inside it is
/// visible here; `json_members` names what it holds.
#[verifier::external_type_specification]
#[verifier::external_body]
#[verifier::reject_recursive_types(K)]
#[verifier::reject_recursive_types(V)]
pub struct ExJsonMap<K, V>(serde_json::Map<K, V>);

/// `serde_json::Value`, any JSON value. It is only named as the member type
/// of an object.
#[verifier::external_type_specification]
#[verifier::external_body]
pub struct ExJsonValue(serde_json::Value);

/// The string members of a JSON object, by name.
pub uninterp spec fn json_members(object: serde_json::Map<String, serde_json::Value>) -> Map<
    Seq<char>,
    Seq<char>,
>;

/// The members of an object that has none.
pub open spec fn no_members() -> Map<Seq<char>, Seq<char>> {
    Map::empty()
}

/// The compact JSON text that `serde_json` writes for an object with the
/// string members `members`.
pub uninterp spec fn json_text(members: Map<Seq<char>, Seq<char>>) -> Seq<char>;

/// An object without members, from `serde_json::Map::new`.
///
/// Trusted: the new object holds nothing.
#[verifier::external_body]
fn json_object_new() -> (object: serde_json::Map<String, serde_json::Value>)
    ensures
        json_members(object) == no_members(),
{
    serde_json::Map::new()
}

/// Sets the member `name` of an object to the string `text`, with
/// `serde_json::Map::insert` on a `serde_json::Value::String`.
///
/// Trusted: the member is added, or replaces the one of that name, and no
/// other member changes.
#[verifier::external_body]
fn json_object_put(
    object: &mut serde_json::Map<String, serde_json::Value>,
    name: &str,
    text: &str,
)
    ensures
        json_members(*final(object)) == json_members(*old(object)).insert(name@, text@),
{
    object.insert(name.to_string(), serde_json::Value::String(text.to_string()));
}

/// Writes an object out as compact JSON, with the `Display` of
/// `serde_json::Value` on `Value::Object`.
///
/// Trusted: the text depends on the members alone. The object keeps its
/// members ordered by name, so the order in which they were set does not
/// show in the text.
#[verifier::external_body]
fn json_object_text(object: serde_json::Map<String, serde_json::Value>) -> (text:
    String)
    ensures
        text@ == json_text(json_members(object)),
{
    serde_json::Value::Object(object).to_string()
}

/// A JSON object whose members are all strings. It can only be built member
/// by member, so no other kind of member ever gets into it.
pub struct TextObject {
    members: serde_json::Map<String, serde_json::Value>,
}

impl View for TextObject {
    type V = Map<Seq<char>, Seq<char>>;

    closed spec fn view(&self) -> Map<Seq<char>, Seq<char>> {
        json_members(self.members)
    }
}

impl TextObject {
    /// An object without members.
    pub fn new() -> (object: TextObject)
        ensures
            object@ == no_members(),
    {
        TextObject { members: json_object_new() }
    }

    /// Sets the member `name` to the string `text`.
    pub fn put(&mut self, name: &str, text: &str)
        ensures
            final(self)@ == old(self)@.insert(name@, text@),
    {
        json_object_put(&mut self.members, name, text);
    }

    /// The compact JSON text of the object.
    pub fn into_text(self) -> (text: String)
        ensures
            text@ == json_text(self@),
    {
        json_object_text(self.members)
    }
}

} // verus!
