//! JSON documents as `serde_json` holds them.
//!
//! The values stay `serde_json`'s own. What one holds is described by
//! [`JsonModel`]; every function here that touches a value is a thin call
//! into `serde_json` whose contract is stated over that model and is taken
//! on trust.

use vstd::prelude::*;

verus! {

#[verifier::external_type_specification]
#[verifier::external_body]
pub struct ExJsonValue(serde_json::Value);

#[verifier::external_type_specification]
#[verifier::external_body]
#[verifier::reject_recursive_types(K)]
#[verifier::reject_recursive_types(V)]
pub struct ExJsonMap<K, V>(serde_json::Map<K, V>);

/// A JSON object as `serde_json` holds it.
pub type JsonObject = serde_json::Map<String, serde_json::Value>;

/// What a JSON value holds.
pub enum JsonModel {
    Null,
    Bool(bool),
    /// A number held as an integer.
    Integer(int),
    /// A number held as a double, by its bits.
    Float(u64),
    Text(Seq<char>),
    Array(Seq<JsonModel>),
    Object(Map<Seq<char>, JsonModel>),
}

/// Whether `v` is an object with a member called `key`.
pub open spec fn json_has_member(v: JsonModel, key: Seq<char>) -> bool {
    v matches JsonModel::Object(m) && m.contains_key(key)
}

/// The member of the object `v` called `key`.
pub open spec fn json_member(v: JsonModel, key: Seq<char>) -> JsonModel
    recommends
        json_has_member(v, key),
{
    v->Object_0[key]
}

/// The member of `v` called `key` where there is one, `Null` where not.
pub open spec fn json_member_or_null(v: JsonModel, key: Seq<char>) -> JsonModel {
    if json_has_member(v, key) {
        json_member(v, key)
    } else {
        JsonModel::Null
    }
}

/// An object without members.
pub open spec fn json_no_members() -> Map<Seq<char>, JsonModel> {
    Map::empty()
}

/// The content of a `serde_json::Value`.
pub uninterp spec fn json_model(v: serde_json::Value) -> JsonModel;

/// The members of a `serde_json::Map`.
pub uninterp spec fn json_object_model(m: JsonObject) -> Map<Seq<char>, JsonModel>;

/// The document that `serde_json::from_slice` reads out of `bytes`, where
/// they are one.
pub uninterp spec fn json_parse(bytes: Seq<u8>) -> Option<JsonModel>;

/// The text that `serde_json` writes for a value.
pub uninterp spec fn json_text(v: JsonModel) -> Seq<char>;

/// The order in which `serde_json` walks the keys of an object with these keys.
pub uninterp spec fn json_key_order(keys: Set<Seq<char>>) -> Seq<Seq<char>>;

/// `serde_json::from_slice::<Value>`: reads one JSON document from the bytes,
/// `None` where they are not one. The outcome depends on the bytes alone and
/// is named by [`json_parse`].
#[verifier::external_body]
pub(crate) fn parse_json(bytes: &[u8]) -> (r: Option<serde_json::Value>)
    ensures
        match r {
            Some(v) => json_parse(bytes@) == Some(json_model(v)),
            None => json_parse(bytes@) is None,
        },
{
    serde_json::from_slice::<serde_json::Value>(bytes).ok()
}

/// `Value::get` with a string index: the member of that name where the value
/// is an object that has it, `None` otherwise.
#[verifier::external_body]
pub(crate) fn json_get<'a>(v: &'a serde_json::Value, key: &str) -> (r: Option<
    &'a serde_json::Value,
>)
    ensures
        r.is_some() == json_has_member(json_model(*v), key@),
        r matches Some(x) ==> json_model(*x) == json_member(json_model(*v), key@),
{
    v.get(key)
}

/// `Value::as_i64`: the number where the value is an integer that fits `i64`.
#[verifier::external_body]
pub(crate) fn json_as_i64(v: &serde_json::Value) -> (r: Option<i64>)
    ensures
        r == (match json_model(*v) {
            JsonModel::Integer(i) if i64::MIN <= i <= i64::MAX => Some(i as i64),
            _ => None::<i64>,
        }),
{
    v.as_i64()
}

/// `Value::as_bool`: the flag where the value is `true` or `false`.
#[verifier::external_body]
pub(crate) fn json_as_bool(v: &serde_json::Value) -> (r: Option<bool>)
    ensures
        r == (match json_model(*v) {
            JsonModel::Bool(b) => Some(b),
            _ => None::<bool>,
        }),
{
    v.as_bool()
}

/// `Value::is_null`.
#[verifier::external_body]
pub(crate) fn json_is_null(v: &serde_json::Value) -> (r: bool)
    ensures
        r == (json_model(*v) is Null),
{
    v.is_null()
}

/// `Value::as_str`: the text where the value is a string.
#[verifier::external_body]
pub(crate) fn json_as_str<'a>(v: &'a serde_json::Value) -> (r: Option<&'a str>)
    ensures
        match r {
            Some(s) => json_model(*v) == JsonModel::Text(s@),
            None => !(json_model(*v) is Text),
        },
{
    v.as_str()
}

/// `Value::as_array`: the elements, in order, where the value is an array.
#[verifier::external_body]
pub(crate) fn json_as_array<'a>(v: &'a serde_json::Value) -> (r: Option<
    &'a Vec<serde_json::Value>,
>)
    ensures
        match r {
            Some(items) => json_model(*v) == JsonModel::Array(
                Seq::new(items@.len(), |i: int| json_model(items@[i])),
            ),
            None => !(json_model(*v) is Array),
        },
{
    v.as_array()
}

/// `Value::as_object`: the object where the value is one.
#[verifier::external_body]
pub(crate) fn json_as_object<'a>(v: &'a serde_json::Value) -> (r: Option<&'a JsonObject>)
    ensures
        match r {
            Some(m) => json_model(*v) == JsonModel::Object(json_object_model(*m)),
            None => !(json_model(*v) is Object),
        },
{
    v.as_object()
}

/// `Map::keys`: every key of the object once, in the map's own order, which
/// depends on the set of keys alone.
#[verifier::external_body]
pub(crate) fn json_object_keys(m: &JsonObject) -> (r: Vec<String>)
    ensures
        r.deep_view() == json_key_order(json_object_model(*m).dom()),
        r.deep_view().no_duplicates(),
        r.deep_view().to_set() == json_object_model(*m).dom(),
{
    m.keys().cloned().collect()
}

/// `Map::new`: an object without members.
#[verifier::external_body]
pub(crate) fn json_object_new() -> (r: JsonObject)
    ensures
        json_object_model(r) == json_no_members(),
{
    serde_json::Map::new()
}

/// `Map::insert`: sets the member called `key`, replacing one of that name.
#[verifier::external_body]
pub(crate) fn json_object_insert(m: &mut JsonObject, key: &str, value: serde_json::Value)
    ensures
        json_object_model(*final(m)) == json_object_model(*old(m)).insert(key@, json_model(value)),
{
    m.insert(key.to_string(), value);
}

/// `Value::Object`: the value that is the given object.
#[verifier::external_body]
pub(crate) fn json_from_object(m: JsonObject) -> (r: serde_json::Value)
    ensures
        json_model(r) == JsonModel::Object(json_object_model(m)),
{
    serde_json::Value::Object(m)
}

/// `Value::String`: the value that is the given text.
#[verifier::external_body]
pub(crate) fn json_from_str(s: &str) -> (r: serde_json::Value)
    ensures
        json_model(r) == JsonModel::Text(s@),
{
    serde_json::Value::String(s.to_string())
}

/// `Value::Bool`: the value that is the given flag.
#[verifier::external_body]
pub(crate) fn json_from_bool(b: bool) -> (r: serde_json::Value)
    ensures
        json_model(r) == JsonModel::Bool(b),
{
    serde_json::Value::Bool(b)
}

/// `Value::Null`.
#[verifier::external_body]
pub(crate) fn json_null() -> (r: serde_json::Value)
    ensures
        json_model(r) == JsonModel::Null,
{
    serde_json::Value::Null
}

/// `Value`'s `to_string`: the compact text of the value, members in the
/// map's own order. It depends on the content alone and is named by
/// [`json_text`].
#[verifier::external_body]
pub(crate) fn json_render(v: &serde_json::Value) -> (r: String)
    ensures
        r@ == json_text(json_model(*v)),
{
    v.to_string()
}

} // verus!
