//! JSON documents, as `serde_json` reads them.

use crate::text::opt_str;
use serde_json::Value;
use vstd::prelude::*;

verus! {

/// What a JSON value holds.
pub ghost enum JsonTree {
    Null,
    Bool(bool),
    /// A number: its value where it was written as an integer from 0 to `u64::MAX`, and the bits
    /// of the double that the parser gives.
    Number(Option<u64>, u64),
    Text(Seq<char>),
    List(Seq<JsonTree>),
    Object(Map<Seq<char>, JsonTree>),
}

/// A JSON value of `serde_json`.
#[verifier::external_type_specification]
#[verifier::external_body]
pub struct ExValue(Value);

/// What a value of `serde_json` holds.
pub uninterp spec fn json_tree(v: Value) -> JsonTree;

/// What the document in the bytes holds, or the text of the error where it is no JSON.
pub uninterp spec fn json_document(bytes: Seq<u8>) -> Result<JsonTree, Seq<char>>;

/// The member of an object under a key; nothing where the value is no object or lacks the key.
pub open spec fn member(t: JsonTree, key: Seq<char>) -> Option<JsonTree> {
    match t {
        JsonTree::Object(m) => if m.contains_key(key) {
            Some(m[key])
        } else {
            None
        },
        _ => None,
    }
}

/// The elements of a list.
pub open spec fn elements(t: JsonTree) -> Option<Seq<JsonTree>> {
    match t {
        JsonTree::List(s) => Some(s),
        _ => None,
    }
}

/// The number as an unsigned integer.
pub open spec fn unsigned(t: JsonTree) -> Option<u64> {
    match t {
        JsonTree::Number(n, _) => n,
        _ => None,
    }
}

/// The bits of the number as a double.
pub open spec fn double_bits(t: JsonTree) -> Option<u64> {
    match t {
        JsonTree::Number(_, bits) => Some(bits),
        _ => None,
    }
}

/// The text of a string.
pub open spec fn text_value(t: JsonTree) -> Option<Seq<char>> {
    match t {
        JsonTree::Text(s) => Some(s),
        _ => None,
    }
}

/// `serde_json::from_slice` reads a whole document. The same bytes always give the same value or
/// the same error; what the grammar of JSON accepts is not stated.
#[verifier::external_body]
pub(crate) fn parse_json(bytes: &Vec<u8>) -> (r: Result<Value, String>)
    ensures
        match r {
            Ok(v) => json_document(bytes@) == Ok::<JsonTree, Seq<char>>(json_tree(v)),
            Err(e) => json_document(bytes@) == Err::<JsonTree, Seq<char>>(e@),
        },
{
    serde_json::from_slice(bytes.as_slice()).map_err(|e: serde_json::Error| e.to_string())
}

/// `serde_json::Value::get` with a string gives the member of an object under that key, and
/// nothing where the value is no object or lacks the key.
#[verifier::external_body]
pub(crate) fn json_get<'a>(v: &'a Value, key: &str) -> (r: Option<&'a Value>)
    ensures
        match r {
            Some(m) => member(json_tree(*v), key@) == Some(json_tree(*m)),
            None => member(json_tree(*v), key@) is None,
        },
{
    v.get(key)
}

/// `serde_json::Value::as_array` gives the elements of a list, and nothing for other values.
pub assume_specification[ Value::as_array ](v: &Value) -> (r: Option<&Vec<Value>>)
    ensures
        match r {
            Some(a) => elements(json_tree(*v)) == Some(a@.map_values(|e: Value| json_tree(e))),
            None => elements(json_tree(*v)) is None,
        },
;

/// `serde_json::Value::as_u64` gives the number where it is an integer from 0 to `u64::MAX`, and
/// nothing for other values.
pub assume_specification[ Value::as_u64 ](v: &Value) -> (r: Option<u64>)
    ensures
        r == unsigned(json_tree(*v)),
;

/// `serde_json::Value::as_str` gives the text of a string, and nothing for other values.
pub assume_specification[ Value::as_str ](v: &Value) -> (r: Option<&str>)
    ensures
        opt_str(r) == text_value(json_tree(*v)),
;

/// `serde_json::Value::as_f64` gives a number as a double, here as its bits, and nothing for
/// other values.
#[verifier::external_body]
pub(crate) fn json_double_bits(v: &Value) -> (r: Option<u64>)
    ensures
        r == double_bits(json_tree(*v)),
{
    v.as_f64().map(|x| x.to_bits())
}

/// The element at `i` of a list, read as a double.
pub open spec fn double_at(list: Seq<JsonTree>, i: int) -> Option<u64> {
    if 0 <= i < list.len() {
        double_bits(list[i])
    } else {
        None
    }
}

/// The element at `i` of the list, read as a double.
pub fn double_bits_at(list: &Vec<Value>, i: usize) -> (r: Option<u64>)
    ensures
        r == double_at(list@.map_values(|e: Value| json_tree(e)), i as int),
{
    if i < list.len() {
        json_double_bits(&list[i])
    } else {
        None
    }
}

/// The element at `i` of a list, read as an unsigned integer.
pub open spec fn unsigned_at(list: Seq<JsonTree>, i: int) -> Option<u64> {
    if 0 <= i < list.len() {
        unsigned(list[i])
    } else {
        None
    }
}

/// The element at `i` of the list, read as an unsigned integer.
pub fn u64_at(list: &Vec<Value>, i: usize) -> (r: Option<u64>)
    ensures
        r == unsigned_at(list@.map_values(|e: Value| json_tree(e)), i as int),
{
    if i < list.len() {
        list[i].as_u64()
    } else {
        None
    }
}

} // verus!
