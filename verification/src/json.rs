//! JSON documents, as `serde_json` reads them.
use vstd::prelude::*;

verus! {

/// What a JSON document holds. A number is kept as far as it is read here: as
/// the integer it is, where that is one of 64 bits with a sign.
pub enum JsonView {
    Null,
    Bool(bool),
    Number(Option<i64>),
    Text(Seq<char>),
    List(Seq<JsonView>),
    Fields(Map<Seq<char>, JsonView>),
}

/// The field `key` of a document; null where it has none or is no object.
pub open spec fn field_of(document: JsonView, key: Seq<char>) -> JsonView {
    match document {
        JsonView::Fields(fields) => if fields.contains_key(key) {
            fields[key]
        } else {
            JsonView::Null
        },
        _ => JsonView::Null,
    }
}

/// The text that a document is, if it is one.
pub open spec fn text_of(document: JsonView) -> Option<Seq<char>> {
    match document {
        JsonView::Text(chars) => Some(chars),
        _ => None,
    }
}

/// The integer that a document is, if it is one of 64 bits.
pub open spec fn integer_of(document: JsonView) -> Option<i64> {
    match document {
        JsonView::Number(number) => number,
        _ => None,
    }
}

/// A document of `serde_json`.
#[verifier::external_type_specification]
#[verifier::external_body]
pub struct ExValue(serde_json::Value);

/// Why `serde_json` could not read a document.
#[verifier::external_type_specification]
#[verifier::external_body]
pub struct ExJsonError(serde_json::Error);

/// What a `serde_json::Value` holds.
pub uninterp spec fn json_view(value: serde_json::Value) -> JsonView;

/// What `serde_json::from_str` reads from a text; `None` where it fails.
pub uninterp spec fn parsed_json(text: Seq<char>) -> Option<JsonView>;

/// `serde_json::from_str` with a `serde_json::Value` as its target: the
/// document that stands in the text, or an error. Which texts are documents,
/// and of what, is named, not described.
#[verifier::external_body]
pub(crate) fn parse_json(text: &str) -> (document: Result<serde_json::Value, serde_json::Error>)
    ensures
        match document {
            Ok(value) => parsed_json(text@) == Some(json_view(value)),
            Err(_) => parsed_json(text@) is None,
        },
{
    serde_json::from_str::<serde_json::Value>(text)
}

/// `<serde_json::Value as std::ops::Index<&str>>::index`: the field of an
/// object, and null where the value has no such field or is no object.
#[verifier::external_body]
pub(crate) fn field<'a>(value: &'a serde_json::Value, key: &str) -> (found: &'a serde_json::Value)
    ensures
        json_view(*found) == field_of(json_view(*value), key@),
{
    &value[key]
}

/// `serde_json::Value::as_str`: the text of a value that is a string.
pub assume_specification[ serde_json::Value::as_str ](value: &serde_json::Value) -> (string:
    Option<&str>)
    ensures
        match string {
            Some(chars) => text_of(json_view(*value)) == Some(chars@),
            None => text_of(json_view(*value)) is None,
        },
;

/// `serde_json::Value::as_i64`: the integer of a value that is a number
/// without fraction in the range of `i64`.
pub assume_specification[ serde_json::Value::as_i64 ](value: &serde_json::Value) -> (number: Option<
    i64,
>)
    ensures
        number == integer_of(json_view(*value)),
;

/// `serde_json::Value::as_array`: the items of a value that is an array, in
/// their order.
pub assume_specification[ serde_json::Value::as_array ](value: &serde_json::Value) -> (items:
    Option<&Vec<serde_json::Value>>)
    ensures
        match items {
            Some(values) => json_view(*value) == JsonView::List(
                values@.map_values(|item: serde_json::Value| json_view(item)),
            ),
            None => !(json_view(*value) is List),
        },
;

} // verus!
