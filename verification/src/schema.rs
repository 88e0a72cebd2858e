//! The fields that replies carry as JSON: a status code, a map of headers,
//! a list of texts.

use vstd::prelude::*;
use crate::headers::{
    canonical_header_name, canonical_name, is_header_value, lemma_canonical_name_is_canonical,
    valid_header_value,
};
use crate::json::{
    json_as_array, json_as_i64, json_as_object, json_as_str, json_get, json_has_member,
    json_key_order, json_model, json_object_keys, JsonModel,
};
use crate::response::{are_headers, is_legal_status, pairs_model, texts_model};

verus! {

/// The status code that the JSON value `v` gives: an integer that is a legal
/// HTTP status.
pub open spec fn status_of_json(v: JsonModel) -> Option<int> {
    match v {
        JsonModel::Integer(i) => if is_legal_status(i) {
            Some(i)
        } else {
            None
        },
        _ => None,
    }
}

/// The header that the member `key` of the object `m` gives: `key` in its
/// canonical form with the member's text, where `key` is a header name and
/// the member a text that is accepted as a header value.
pub open spec fn header_of_member(m: Map<Seq<char>, JsonModel>, key: Seq<char>) -> Option<
    (Seq<char>, Seq<char>),
> {
    match (canonical_header_name(key), m[key]) {
        (Some(name), JsonModel::Text(value)) => if is_header_value(value) {
            Some((name, value))
        } else {
            None
        },
        _ => None,
    }
}

/// The headers that the JSON value `v` gives: `v` is an object, and each of
/// its members gives a header. They stand in the order of the object's keys.
pub open spec fn headers_of_json(v: JsonModel) -> Option<Seq<(Seq<char>, Seq<char>)>> {
    match v {
        JsonModel::Object(m) => {
            let keys = json_key_order(m.dom());
            if forall|i: int| 0 <= i < keys.len() ==> (#[trigger] header_of_member(m, keys[i])) is Some {
                Some(Seq::new(keys.len(), |i: int| header_of_member(m, keys[i])->Some_0))
            } else {
                None
            }
        },
        _ => None,
    }
}

/// The texts that the JSON value `v` gives: `v` is an array of texts.
pub open spec fn texts_of_json(v: JsonModel) -> Option<Seq<Seq<char>>> {
    match v {
        JsonModel::Array(items) => {
            if forall|i: int| 0 <= i < items.len() ==> (#[trigger] items[i]) is Text {
                Some(Seq::new(items.len(), |i: int| items[i]->Text_0))
            } else {
                None
            }
        },
        _ => None,
    }
}

/// Reads a status code.
pub fn read_status(v: &serde_json::Value) -> (r: Option<u16>)
    ensures
        match r {
            Some(code) => status_of_json(json_model(*v)) == Some(code as int),
            None => status_of_json(json_model(*v)) is None,
        },
{
    match json_as_i64(v) {
        Some(code) => {
            if 100 <= code && code <= 599 {
                Some(code as u16)
            } else {
                None
            }
        },
        None => None,
    }
}

/// Reads a map of headers.
pub fn read_headers(v: &serde_json::Value) -> (r: Option<Vec<(String, String)>>)
    ensures
        match r {
            Some(pairs) => headers_of_json(json_model(*v)) == Some(pairs_model(pairs@)),
            None => headers_of_json(json_model(*v)) is None,
        },
{
    let keys = match json_as_object(v) {
        Some(object) => json_object_keys(object),
        None => {
            return None;
        },
    };
    let ghost m = json_model(*v)->Object_0;
    let ghost order = json_key_order(m.dom());
    let mut out: Vec<(String, String)> = Vec::new();
    let mut i: usize = 0;
    while i < keys.len()
        invariant
            json_model(*v) == JsonModel::Object(m),
            order == json_key_order(m.dom()),
            keys.deep_view() == order,
            order.to_set() == m.dom(),
            i <= keys.len(),
            out.len() == i,
            forall|j: int|
                0 <= j < i ==> (#[trigger] header_of_member(m, order[j])) == Some(
                    (out[j].0@, out[j].1@),
                ),
        decreases keys.len() - i,
    {
        let key = keys[i].as_str();
        let member = json_get(v, key);
        let entry = match member {
            Some(x) => match (canonical_name(key), json_as_str(x)) {
                (Some(name), Some(value)) => {
                    if valid_header_value(value) {
                        Some((name, value.to_owned()))
                    } else {
                        None
                    }
                },
                _ => None,
            },
            None => None,
        };
        match entry {
            Some(pair) => {
                out.push(pair);
            },
            None => {
                assert(header_of_member(m, order[i as int]) is None);
                return None;
            },
        }
        i += 1;
    }
    Some(out)
}

/// Reads a list of texts.
pub fn read_texts(v: &serde_json::Value) -> (r: Option<Vec<String>>)
    ensures
        match r {
            Some(texts) => texts_of_json(json_model(*v)) == Some(texts_model(texts@)),
            None => texts_of_json(json_model(*v)) is None,
        },
{
    let items = match json_as_array(v) {
        Some(items) => items,
        None => {
            return None;
        },
    };
    let ghost models = json_model(*v)->Array_0;
    let mut out: Vec<String> = Vec::new();
    let mut i: usize = 0;
    while i < items.len()
        invariant
            json_model(*v) == JsonModel::Array(models),
            models == Seq::new(items@.len(), |k: int| json_model(items@[k])),
            i <= items.len(),
            out.len() == i,
            forall|j: int| 0 <= j < i ==> (#[trigger] models[j]) == JsonModel::Text(out[j]@),
        decreases items.len() - i,
    {
        match json_as_str(&items[i]) {
            Some(text) => {
                out.push(text.to_owned());
            },
            None => {
                assert(!(models[i as int] is Text));
                return None;
            },
        }
        i += 1;
    }
    Some(out)
}

/// The headers read from a JSON object are headers: each name is in
/// canonical form and each value is accepted.
pub proof fn lemma_headers_of_json_are_headers(v: JsonModel)
    requires
        headers_of_json(v) is Some,
    ensures
        are_headers(headers_of_json(v)->Some_0),
{
    let m = v->Object_0;
    let keys = json_key_order(m.dom());
    let headers = headers_of_json(v)->Some_0;
    assert forall|i: int| 0 <= i < headers.len() implies canonical_header_name(
        (#[trigger] headers[i]).0,
    ) == Some(headers[i].0) && is_header_value(headers[i].1) by {
        assert(header_of_member(m, keys[i]) is Some);
        lemma_canonical_name_is_canonical(keys[i]);
    }
}

} // verus!
