//! JSON documents held as `serde_json::Value`, with their contents as a ghost tree.

use serde_json::Value;
use vstd::prelude::*;

verus! {

/// A JSON value of `serde_json`; what it holds is [`json_view`].
#[verifier::external_type_specification]
#[verifier::external_body]
pub struct ExJsonValue(serde_json::Value);

/// A JSON number: a whole number that is not negative, a negative whole number, or
/// any other number, which stands for all floating-point values that compare equal to it.
pub enum JsonNumber {
    Whole(u64),
    Negative(i64),
    Real(int),
}

/// The contents of a JSON value.
pub enum JsonView {
    Null,
    Bool(bool),
    Number(JsonNumber),
    Text(Seq<char>),
    List(Seq<JsonView>),
    Object(Map<Seq<char>, JsonView>),
}

/// What a JSON value holds.
pub uninterp spec fn json_view(value: serde_json::Value) -> JsonView;

/// The contents of a list of JSON values.
pub open spec fn json_views(values: Seq<Value>) -> Seq<JsonView> {
    Seq::new(values.len(), |i: int| json_view(values[i]))
}

/// The member `key` of an object; a value of another kind has no members.
pub open spec fn member_view(view: JsonView, key: Seq<char>) -> Option<JsonView> {
    match view {
        JsonView::Object(members) => if members.contains_key(key) {
            Some(members[key])
        } else {
            None
        },
        _ => None,
    }
}

pub open spec fn text_view(view: JsonView) -> Option<Seq<char>> {
    match view {
        JsonView::Text(text) => Some(text),
        _ => None,
    }
}

/// The text member `key` of an object.
pub open spec fn text_member(view: JsonView, key: Seq<char>) -> Option<Seq<char>> {
    match member_view(view, key) {
        Some(member) => text_view(member),
        None => None,
    }
}

/// The optional text as a sequence of characters.
pub open spec fn opt_text(text: Option<String>) -> Option<Seq<char>> {
    match text {
        Some(t) => Some(t@),
        None => None,
    }
}

pub open spec fn opt_str(text: Option<&str>) -> Option<Seq<char>> {
    match text {
        Some(t) => Some(t@),
        None => None,
    }
}

/// `Value::as_str`: the text of a string value, nothing for another kind.
pub assume_specification[ serde_json::Value::as_str ](value: &Value) -> (r: Option<&str>)
    ensures
        opt_str(r) == text_view(json_view(*value)),
;

/// `Value::as_bool`: the truth value of a boolean, nothing for another kind.
pub assume_specification[ serde_json::Value::as_bool ](value: &Value) -> (r: Option<bool>)
    ensures
        r == match json_view(*value) {
            JsonView::Bool(b) => Some(b),
            _ => None,
        },
;

/// `Value::as_u64`: a whole number that is not negative, nothing for another value.
pub assume_specification[ serde_json::Value::as_u64 ](value: &Value) -> (r: Option<u64>)
    ensures
        r == match json_view(*value) {
            JsonView::Number(JsonNumber::Whole(n)) => Some(n),
            _ => None,
        },
;

/// `Value::as_array`: the elements of an array, nothing for another kind.
pub assume_specification[ serde_json::Value::as_array ](value: &Value) -> (r: Option<&Vec<Value>>)
    ensures
        match r {
            Some(items) => json_view(*value) == JsonView::List(json_views(items@)),
            None => !(json_view(*value) is List),
        },
;

/// `Value::is_string`.
pub assume_specification[ serde_json::Value::is_string ](value: &Value) -> (r: bool)
    ensures
        r == (json_view(*value) is Text),
;

/// `Value::is_number`.
pub assume_specification[ serde_json::Value::is_number ](value: &Value) -> (r: bool)
    ensures
        r == (json_view(*value) is Number),
;

/// `Value::is_boolean`.
pub assume_specification[ serde_json::Value::is_boolean ](value: &Value) -> (r: bool)
    ensures
        r == (json_view(*value) is Bool),
;

/// `Value::is_null`.
pub assume_specification[ serde_json::Value::is_null ](value: &Value) -> (r: bool)
    ensures
        r == (json_view(*value) is Null),
;

/// `Value::get` with a string: the member of an object under that key, if there is one.
#[verifier::external_body]
pub(crate) fn json_member<'a>(value: &'a Value, key: &str) -> (r: Option<&'a Value>)
    ensures
        match r {
            Some(member) => member_view(json_view(*value), key@) == Some(json_view(*member)),
            None => member_view(json_view(*value), key@) is None,
        },
{
    value.get(key)
}

/// `Value::clone` gives a value with the same contents.
pub assume_specification[ <serde_json::Value as Clone>::clone ](value: &Value) -> (r: Value)
    ensures
        json_view(r) == json_view(*value),
;

/// `Value::eq` compares the contents: kinds, texts, elements and members, and numbers of
/// one kind by their value.
#[verifier::external_body]
pub(crate) fn json_same(a: &Value, b: &Value) -> (r: bool)
    ensures
        r == (json_view(*a) == json_view(*b)),
{
    a == b
}

/// The variant `Value::Null`.
#[verifier::external_body]
pub(crate) fn json_null() -> (r: Value)
    ensures
        json_view(r) == JsonView::Null,
{
    Value::Null
}

/// The variant `Value::Bool`.
#[verifier::external_body]
pub(crate) fn json_bool(b: bool) -> (r: Value)
    ensures
        json_view(r) == JsonView::Bool(b),
{
    Value::Bool(b)
}

/// `Value::from` a `u64`, which makes a whole number.
#[verifier::external_body]
pub(crate) fn json_whole(n: u64) -> (r: Value)
    ensures
        json_view(r) == JsonView::Number(JsonNumber::Whole(n)),
{
    Value::from(n)
}

/// The variant `Value::String`.
#[verifier::external_body]
pub(crate) fn json_text(text: String) -> (r: Value)
    ensures
        json_view(r) == JsonView::Text(text@),
{
    Value::String(text)
}

/// An object of `serde_json` that has no members: `Value::Object` of `Map::new`.
#[verifier::external_body]
pub(crate) fn json_object() -> (r: Value)
    ensures
        json_view(r) == JsonView::Object(Map::<Seq<char>, JsonView>::empty()),
{
    Value::Object(serde_json::Map::new())
}

/// `Value::as_object_mut` followed by `Map::insert`: the member `key` is set, and a former
/// value under that key is dropped; a value of another kind stays as it is.
#[verifier::external_body]
pub(crate) fn json_set(object: &mut Value, key: &str, member: Value)
    ensures
        json_view(*final(object)) == match json_view(*old(object)) {
            JsonView::Object(members) => JsonView::Object(members.insert(key@, json_view(member))),
            other => other,
        },
{
    if let Some(members) = object.as_object_mut() {
        members.insert(key.to_string(), member);
    }
}

/// What `serde_json::from_str` makes of a text: a document, or the message of its error.
pub uninterp spec fn json_document(raw: Seq<char>) -> Result<JsonView, Seq<char>>;

/// `serde_json::from_str` into a `Value`; the error is given by its message.
#[verifier::external_body]
pub(crate) fn json_parse(raw: &str) -> (r: Result<Value, String>)
    ensures
        match r {
            Ok(value) => json_document(raw@) == Ok::<JsonView, Seq<char>>(json_view(value)),
            Err(message) => json_document(raw@) == Err::<JsonView, Seq<char>>(message@),
        },
{
    serde_json::from_str(raw).map_err(|error| error.to_string())
}

/// The bytes of the compact form that `serde_json::to_vec` writes of a value, or the message of
/// its error.
pub uninterp spec fn json_encoding(value: serde_json::Value) -> Result<Seq<u8>, Seq<char>>;

/// `serde_json::to_vec` of a `Value`; the error is given by its message.
#[verifier::external_body]
pub(crate) fn json_encode(value: &Value) -> (r: Result<Vec<u8>, String>)
    ensures
        match r {
            Ok(bytes) => json_encoding(*value) == Ok::<Seq<u8>, Seq<char>>(bytes@),
            Err(message) => json_encoding(*value) == Err::<Seq<u8>, Seq<char>>(
                message@,
            ),
        },
{
    serde_json::to_vec(value).map_err(|error| error.to_string())
}

/// The text that the `Debug` form of a value has.
pub uninterp spec fn json_debug_form(value: serde_json::Value) -> Seq<char>;

/// `Value` written with its `Debug` form.
#[verifier::external_body]
pub(crate) fn json_debug(value: &Value) -> (r: String)
    ensures
        r@ == json_debug_form(*value),
{
    format!("{value:?}")
}

/// Moves the text out of a string value: the variant `Value::String` is matched and its field
/// taken with `std::mem::take`.
#[verifier::external_body]
pub(crate) fn json_take_text(value: &mut Value) -> (r: Option<String>)
    ensures
        opt_text(r) == text_view(json_view(*old(value))),
        match r {
            Some(_) => json_view(*final(value)) == JsonView::Text(Seq::empty()),
            None => *final(value) == *old(value),
        },
{
    match value {
        Value::String(text) => Some(std::mem::take(text)),
        _ => None,
    }
}

/// Moves the elements out of an array: the variant `Value::Array` is matched and its field taken
/// with `std::mem::take`.
#[verifier::external_body]
pub(crate) fn json_take_list(value: &mut Value) -> (r: Option<Vec<Value>>)
    ensures
        match r {
            Some(items) => json_view(*old(value)) == JsonView::List(json_views(items@)) && json_view(
                *final(value),
            ) == JsonView::List(Seq::empty()),
            None => !(json_view(*old(value)) is List) && *final(value) == *old(value),
        },
{
    match value {
        Value::Array(items) => Some(std::mem::take(items)),
        _ => None,
    }
}

/// Whether a list holds the members of an object, each once, in some order.
pub open spec fn lists_members(
    members: Seq<(String, Value)>,
    map: Map<Seq<char>, JsonView>,
) -> bool {
    &&& map.dom().finite()
    &&& forall|i: int|
        0 <= i < members.len() ==> map.contains_key((#[trigger] members[i]).0@)
            && map[members[i].0@] == json_view(members[i].1)
    &&& forall|i: int, j: int|
        0 <= i < j < members.len() ==> (#[trigger] members[i]).0@ != (#[trigger] members[j]).0@
    &&& forall|key: Seq<char>| #[trigger]
        map.contains_key(key) ==> exists|i: int|
            0 <= i < members.len() && (#[trigger] members[i]).0@ == key
}

/// Moves the members out of an object: the variant `Value::Object` is matched, its field taken with
/// `std::mem::take`, and its entries listed.
#[verifier::external_body]
pub(crate) fn json_take_members(value: &mut Value) -> (r: Option<Vec<(String, Value)>>)
    ensures
        match r {
            Some(members) => match json_view(*old(value)) {
                JsonView::Object(map) => lists_members(members@, map) && json_view(*final(value))
                    == JsonView::Object(Map::<Seq<char>, JsonView>::empty()),
                _ => false,
            },
            None => !(json_view(*old(value)) is Object) && *final(value) == *old(value),
        },
{
    match value {
        Value::Object(members) => Some(std::mem::take(members).into_iter().collect()),
        _ => None,
    }
}

/// The text member `key` of a document.
pub fn json_text_member(value: &Value, key: &str) -> (r: Option<String>)
    ensures
        opt_text(r) == text_member(json_view(*value), key@),
{
    match json_member(value, key) {
        Some(member) => match member.as_str() {
            Some(text) => Some(text.to_owned()),
            None => None,
        },
        None => None,
    }
}

/// A member is what an object holds under its key; anything but an object has none.
pub proof fn law_members_are_read(view: JsonView, key: Seq<char>, text: Seq<char>)
    ensures
        view matches JsonView::Object(members) ==> (members.contains_key(key) ==> member_view(
            view,
            key,
        ) == Some(members[key])),
        view matches JsonView::Object(members) ==> (!members.contains_key(key) ==> member_view(
            view,
            key,
        ) is None),
        !(view is Object) ==> member_view(view, key) is None,
        member_view(view, key) == Some(JsonView::Text(text)) ==> text_member(view, key) == Some(
            text,
        ),
        text_member(view, key) == Some(text) ==> member_view(view, key) == Some(
            JsonView::Text(text),
        ),
        text_view(JsonView::Text(text)) == Some(text),
        !(view is Text) ==> text_view(view) is None,
{
}

} // verus!
