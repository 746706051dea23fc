//! JSON objects, kept and written by `serde_json`.

use vstd::prelude::*;

verus! {

/// A member of a JSON object.
pub enum JsonValue {
    Null,
    Flag(bool),
    Count(u64),
    Text(String),
    Texts(Vec<String>),
}

/// What a [`JsonValue`] says.
pub enum JsonValueView {
    Null,
    Flag(bool),
    Count(u64),
    Text(Seq<char>),
    Texts(Seq<Seq<char>>),
}

impl View for JsonValue {
    type V = JsonValueView;

    open spec fn view(&self) -> JsonValueView {
        match *self {
            JsonValue::Null => JsonValueView::Null,
            JsonValue::Flag(flag) => JsonValueView::Flag(flag),
            JsonValue::Count(count) => JsonValueView::Count(count),
            JsonValue::Text(text) => JsonValueView::Text(text@),
            JsonValue::Texts(texts) => JsonValueView::Texts(crate::text::texts(texts@)),
        }
    }
}

#[verifier::external_type_specification]
#[verifier::external_body]
pub struct ExValue(serde_json::Value);

#[verifier::external_type_specification]
#[verifier::external_body]
#[verifier::reject_recursive_types(K)]
#[verifier::reject_recursive_types(V)]
pub struct ExMap<K, V>(serde_json::Map<K, V>);

/// The members of a JSON object by their keys. The library puts nothing into
/// one but what a [`JsonValue`] can say.
pub uninterp spec fn members(object: serde_json::Map<String, serde_json::Value>) -> Map<
    Seq<char>,
    JsonValueView,
>;

/// The text of a JSON object with these members.
pub uninterp spec fn object_text(members: Map<Seq<char>, JsonValueView>) -> Seq<char>;

pub open spec fn no_members() -> Map<Seq<char>, JsonValueView> {
    Map::empty()
}

/// `serde_json::Map::new` makes an object without members.
#[verifier::external_body]
pub(crate) fn empty_object() -> (r: serde_json::Map<String, serde_json::Value>)
    ensures
        members(r) == no_members(),
{
    serde_json::Map::new()
}

/// `serde_json::Map::insert` sets one member and keeps the others.
#[verifier::external_body]
pub(crate) fn set_member(
    object: &mut serde_json::Map<String, serde_json::Value>,
    key: &str,
    value: JsonValue,
)
    ensures
        members(*final(object)) == members(*old(object)).insert(key@, value@),
{
    let value = match value {
        JsonValue::Null => serde_json::Value::Null,
        JsonValue::Flag(flag) => serde_json::Value::from(flag),
        JsonValue::Count(count) => serde_json::Value::from(count),
        JsonValue::Text(text) => serde_json::Value::from(text),
        JsonValue::Texts(texts) => serde_json::Value::from(texts),
    };
    object.insert(key.to_owned(), value);
}

/// `serde_json::Value` displays an object as compact JSON. The object keeps its
/// members in the order of their keys, so that the text depends on them alone.
#[verifier::external_body]
pub(crate) fn write_object(object: serde_json::Map<String, serde_json::Value>) -> (r: String)
    ensures
        r@ == object_text(members(object)),
{
    serde_json::Value::Object(object).to_string()
}

} // verus!
