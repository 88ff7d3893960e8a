//! JSON values as they are built, read and printed for the wire.

use crate::text::{lex_le, texts};
use vstd::prelude::*;
use vstd::string::*;

verus! {

#[verifier::external_type_specification]
#[verifier::external_body]
pub struct ExJsonValue(serde_json::Value);

/// The text that is printed for a value, in compact form.
pub uninterp spec fn json_text(value: serde_json::Value) -> Seq<char>;

/// The text that is printed for the string `s`: quoted and escaped.
pub uninterp spec fn json_string(s: Seq<char>) -> Seq<char>;

/// The value that `text` denotes, if it is JSON.
pub uninterp spec fn json_value(text: Seq<char>) -> Option<serde_json::Value>;

/// The texts `items` with a comma between each two.
pub open spec fn comma_joined(items: Seq<Seq<char>>) -> Seq<char>
    decreases items.len(),
{
    if items.len() == 0 {
        Seq::<char>::empty()
    } else if items.len() == 1 {
        items[0]
    } else {
        comma_joined(items.drop_last()) + ","@ + items.last()
    }
}

/// The compact text of an array whose items read `items`.
pub open spec fn array_layout(items: Seq<Seq<char>>) -> Seq<char> {
    "["@ + comma_joined(items) + "]"@
}

/// The compact texts of the members of an object: each key as a string, a
/// colon, and the text of its value.
pub open spec fn member_layouts(keys: Seq<Seq<char>>, values: Seq<Seq<char>>) -> Seq<Seq<char>> {
    Seq::new(keys.len(), |i: int| json_string(keys[i]) + ":"@ + values[i])
}

/// The compact text of an object with the keys `keys`, in this order, whose
/// values read `values`.
pub open spec fn object_layout(keys: Seq<Seq<char>>, values: Seq<Seq<char>>) -> Seq<char> {
    "{"@ + comma_joined(member_layouts(keys, values)) + "}"@
}

/// Each of `keys` sorts before those after it and differs from them.
pub open spec fn ascending(keys: Seq<Seq<char>>) -> bool {
    forall|i: int, j: int|
        0 <= i < j < keys.len() ==> lex_le(#[trigger] keys[i], #[trigger] keys[j]) && keys[i]
            != keys[j]
}

/// The texts that are printed for `values`.
pub open spec fn value_texts(values: Seq<serde_json::Value>) -> Seq<Seq<char>> {
    values.map_values(|v: serde_json::Value| json_text(v))
}

/// `serde_json::Value::String`: the value that is printed as the string.
#[verifier::external_body]
pub(crate) fn string_value(s: &str) -> (out: serde_json::Value)
    ensures
        json_text(out) == json_string(s@),
{
    serde_json::Value::String(s.to_owned())
}

/// `serde_json::Value::Array`: the value that is printed as a bracket, the
/// items with commas between them, and a bracket.
#[verifier::external_body]
pub(crate) fn array_value(items: Vec<serde_json::Value>) -> (out: serde_json::Value)
    ensures
        json_text(out) == array_layout(value_texts(items@)),
{
    serde_json::Value::Array(items)
}

/// `serde_json::Value::Object` of a `serde_json::Map` collected from keys and
/// values. For keys handed over in ascending order without a repetition the
/// value is printed as a brace, the members in that order with commas
/// between them, and a brace.
#[verifier::external_body]
pub(crate) fn object_value(keys: Vec<String>, values: Vec<serde_json::Value>) -> (out:
    serde_json::Value)
    requires
        keys.len() == values.len(),
        ascending(texts(keys@)),
    ensures
        json_text(out) == object_layout(texts(keys@), value_texts(values@)),
{
    serde_json::Value::Object(keys.into_iter().zip(values).collect())
}

/// `serde_json::from_str` into a `serde_json::Value`. Whether the text is
/// read, and as which value, depends on the text alone. A failure comes back
/// as the parser's own complaint, of which nothing is claimed.
#[verifier::external_body]
pub(crate) fn parse_value(text: &str) -> (out: Result<serde_json::Value, String>)
    ensures
        out is Ok <==> json_value(text@) is Some,
        out is Ok ==> json_value(text@) == Some(out->Ok_0),
{
    match serde_json::from_str::<serde_json::Value>(text) {
        Ok(value) => Ok(value),
        Err(e) => Err(e.to_string()),
    }
}

/// `Display` of `serde_json::Value`: the value in compact form.
#[verifier::external_body]
pub(crate) fn print_value(value: &serde_json::Value) -> (out: String)
    ensures
        out@ == json_text(*value),
{
    value.to_string()
}

/// Two texts that differ in their first character are ordered by it.
pub proof fn lemma_first_char_orders(a: Seq<char>, b: Seq<char>)
    requires
        a.len() > 0,
        b.len() > 0,
        a[0] < b[0],
    ensures
        lex_le(a, b),
        a != b,
{
}

} // verus!
