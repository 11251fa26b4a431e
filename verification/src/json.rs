//! JSON documents as mathematical trees, and the trusted link between a
//! `serde_json::Value` and the tree it holds.
//!
//! Everything the library proves about documents is stated over [`Json`]. The
//! items in this file that Verus takes on trust are the declarations of the
//! `serde_json` types, the names [`json_of`], [`members_of`],
//! [`json_document`] and [`json_text`], and one specification per
//! `serde_json` function that the library calls.

use serde_json::Value;
use vstd::prelude::*;

verus! {

/// A JSON number, in the three forms `serde_json` keeps apart: an integer
/// that is not negative, a negative integer, and any other number, which is
/// identified by the bits of its binary64 form.
pub enum Number {
    Unsigned(u64),
    Negative(i64),
    Fraction(u64),
}

/// A JSON document as a tree. An object lists its members in the order in
/// which its map hands them out.
pub enum Json {
    Null,
    Bool(bool),
    Number(Number),
    String(Seq<char>),
    Array(Seq<Json>),
    Object(Seq<(Seq<char>, Json)>),
}

/// `serde_json::Value`, a JSON document in memory. The verifier sees nothing
/// inside it; what it holds is [`json_of`].
#[verifier::external_type_specification]
#[verifier::external_body]
pub struct ExValue(serde_json::Value);

/// `serde_json::Map`, the members of a JSON object. The verifier sees
/// nothing inside it; what it holds is [`members_of`].
#[verifier::external_type_specification]
#[verifier::external_body]
#[verifier::reject_recursive_types(K)]
#[verifier::reject_recursive_types(V)]
pub struct ExMap<K, V>(serde_json::Map<K, V>);

/// `serde_json::Error`, the error of the parser and of the serializer. It
/// is carried to the caller and never looked into.
#[verifier::external_type_specification]
#[verifier::external_body]
pub struct ExError(serde_json::Error);

/// The tree that a `serde_json::Value` holds.
pub uninterp spec fn json_of(v: serde_json::Value) -> Json;

/// The members that a `serde_json::Map` holds, in iteration order.
pub uninterp spec fn members_of(m: serde_json::Map<String, Value>) -> Seq<(Seq<char>, Json)>;

/// The tree that `serde_json::from_str` reads from a text, or `None` where it
/// rejects the text.
pub uninterp spec fn json_document(text: Seq<char>) -> Option<Json>;

/// The text that `serde_json::to_string` writes for a tree, or `None` where
/// it fails.
pub uninterp spec fn json_text(j: Json) -> Option<Seq<char>>;

/// The value of the first member named `key`.
pub open spec fn lookup(members: Seq<(Seq<char>, Json)>, key: Seq<char>) -> Option<Json>
    decreases members.len(),
{
    if members.len() == 0 {
        None
    } else if members[0].0 == key {
        Some(members[0].1)
    } else {
        lookup(members.drop_first(), key)
    }
}

/// No two of the members have the same name.
pub open spec fn distinct_keys(members: Seq<(Seq<char>, Json)>) -> bool {
    forall|i: int, j: int|
        0 <= i < j < members.len() ==> (#[trigger] members[i]).0 != (#[trigger] members[j]).0
}

/// The members that a list of named values stands for.
pub open spec fn named_trees(members: Seq<(String, Value)>) -> Seq<(Seq<char>, Json)> {
    Seq::new(members.len(), |i: int| (members[i].0@, json_of(members[i].1)))
}

/// No two of the members have the same name.
pub open spec fn distinct_names(members: Seq<(String, Value)>) -> bool {
    forall|i: int, j: int|
        0 <= i < j < members.len() ==> (#[trigger] members[i]).0@ != (#[trigger] members[j]).0@
}

/// `Value::is_null` is true for `Value::Null` and for nothing else.
pub assume_specification[ serde_json::Value::is_null ](v: &Value) -> (b: bool)
    ensures
        b == (json_of(*v) is Null),
;

/// `Value::as_bool` hands out the boolean of a `Value::Bool` and is `None`
/// for every other value.
pub assume_specification[ serde_json::Value::as_bool ](v: &Value) -> (r: Option<bool>)
    ensures
        r == (match json_of(*v) {
            Json::Bool(b) => Some(b),
            _ => None,
        }),
;

/// `Value::as_u64` hands out a number stored as a non-negative integer and
/// is `None` for every other value.
pub assume_specification[ serde_json::Value::as_u64 ](v: &Value) -> (r: Option<u64>)
    ensures
        r == (match json_of(*v) {
            Json::Number(Number::Unsigned(n)) => Some(n),
            _ => None,
        }),
;

/// `Value::as_i64` hands out an integer that fits `i64`, whichever way it is
/// stored, and is `None` for every other value.
pub assume_specification[ serde_json::Value::as_i64 ](v: &Value) -> (r: Option<i64>)
    ensures
        r == (match json_of(*v) {
            Json::Number(Number::Unsigned(n)) => if n <= i64::MAX {
                Some(n as i64)
            } else {
                None
            },
            Json::Number(Number::Negative(n)) => Some(n),
            _ => None,
        }),
;

/// `Value::as_str` lends the text of a `Value::String` and is `None` for
/// every other value.
pub assume_specification<'a>[ serde_json::Value::as_str ](v: &'a Value) -> (r: Option<&'a str>)
    ensures
        match r {
            Some(s) => json_of(*v) == Json::String(s@),
            None => !(json_of(*v) is String),
        },
;

/// `Value::as_array` lends the elements of a `Value::Array` and is `None`
/// for every other value.
pub assume_specification<'a>[ serde_json::Value::as_array ](v: &'a Value) -> (r: Option<
    &'a Vec<Value>,
>)
    ensures
        match r {
            Some(a) => json_of(*v) == Json::Array(a@.map_values(|e: Value| json_of(e))),
            None => !(json_of(*v) is Array),
        },
;

/// `Value::as_object` lends the map of a `Value::Object` and is `None` for
/// every other value.
pub assume_specification<'a>[ serde_json::Value::as_object ](v: &'a Value) -> (r: Option<
    &'a serde_json::Map<String, Value>,
>)
    ensures
        match r {
            Some(m) => json_of(*v) == Json::Object(members_of(*m)),
            None => !(json_of(*v) is Object),
        },
;

/// The derived `Clone` of `Value` copies the tree.
pub assume_specification[ <serde_json::Value as Clone>::clone ](v: &Value) -> (r: Value)
    ensures
        json_of(r) == json_of(*v),
;

/// `Map::iter`, collected: one pair per member, in iteration order, each
/// lending the member's key and value. A map holds a key once, so no two
/// pairs have the same key.
#[verifier::external_body]
pub(crate) fn entries<'a>(m: &'a serde_json::Map<String, Value>) -> (r: Vec<
    (&'a String, &'a Value),
>)
    ensures
        r@.len() == members_of(*m).len(),
        forall|i: int|
            0 <= i < r@.len() ==> (#[trigger] r@[i]).0@ == members_of(*m)[i].0 && json_of(
                *r@[i].1,
            ) == members_of(*m)[i].1,
        forall|i: int, j: int|
            0 <= i < j < r@.len() ==> (#[trigger] r@[i]).0@ != (#[trigger] r@[j]).0@,
{
    m.iter().collect()
}

/// `Display` of `serde_json::Error`: the words of the parser or the
/// serializer for the error, with the line and column where it arose.
#[verifier::external_body]
pub(crate) fn error_text(error: &serde_json::Error) -> String {
    error.to_string()
}

/// `Value::Null`.
#[verifier::external_body]
pub(crate) fn null() -> (r: Value)
    ensures
        json_of(r) == Json::Null,
{
    Value::Null
}

/// `Value::from` at `u32`: the number, stored as a non-negative integer.
#[verifier::external_body]
pub(crate) fn number(n: u32) -> (r: Value)
    ensures
        json_of(r) == Json::Number(Number::Unsigned(n as u64)),
{
    Value::from(n)
}

/// `Value::from` at `&str`: the string with the same text.
#[verifier::external_body]
pub(crate) fn string(text: &str) -> (r: Value)
    ensures
        json_of(r) == Json::String(text@),
{
    Value::from(text)
}

/// `Value::Array`: the array of the given elements, in their order.
#[verifier::external_body]
pub(crate) fn array(items: Vec<Value>) -> (r: Value)
    ensures
        json_of(r) == Json::Array(items@.map_values(|e: Value| json_of(e))),
{
    Value::Array(items)
}

/// `Value::Object` of the map that collects the given members: an object
/// that holds each of them under its name and nothing else. The order of
/// its members is the map's own.
#[verifier::external_body]
pub(crate) fn object(members: Vec<(String, Value)>) -> (r: Value)
    requires
        distinct_names(members@),
    ensures
        json_of(r) is Object,
        forall|key: Seq<char>|
            #[trigger] lookup(json_of(r)->Object_0, key) == lookup(named_trees(members@), key),
{
    Value::Object(members.into_iter().collect())
}

/// `serde_json::to_string` at type `Value`: the text that spells the value.
#[verifier::external_body]
pub(crate) fn to_text(v: &Value) -> (r: Result<String, serde_json::Error>)
    ensures
        match r {
            Ok(text) => json_text(json_of(*v)) == Some(text@),
            Err(_) => json_text(json_of(*v)) is None,
        },
{
    serde_json::to_string(v)
}

/// `serde_json::from_str` at type `Value`: the document that the text
/// spells, or the error that says why it spells none.
#[verifier::external_body]
pub(crate) fn parse(text: &str) -> (r: Result<Value, serde_json::Error>)
    ensures
        match r {
            Ok(v) => json_document(text@) == Some(json_of(v)),
            Err(_) => json_document(text@) is None,
        },
{
    serde_json::from_str::<Value>(text)
}

} // verus!
