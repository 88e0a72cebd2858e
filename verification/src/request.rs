//! The invocation payload: the JSON document that carries a request to the
//! backend.
//!
//! Query parameters and headers travel with one value for each key. Where a
//! request gives several values for one key, the last one is kept and the
//! others are lost.

use vstd::prelude::*;
use crate::headers::{header_entries, header_map_model, HeaderEntries, Headers};
use crate::json::{
    json_from_bool, json_from_object, json_from_str, json_no_members, json_null,
    json_object_insert, json_object_model, json_object_new, json_render, json_text, JsonModel,
    JsonObject,
};
use crate::query::{query_keys, query_map_model, query_map_walkable, query_values};
use crate::response::{pairs_model, GatewayError};
use crate::text::text_eq;

verus! {

/// The map that a list of pairs gives: each key with the value of the last
/// pair that has it.
pub open spec fn map_of_pairs(pairs: Seq<(Seq<char>, Seq<char>)>) -> Map<Seq<char>, Seq<char>>
    decreases pairs.len(),
{
    if pairs.len() == 0 {
        Map::empty()
    } else {
        map_of_pairs(pairs.drop_last()).insert(pairs.last().0, pairs.last().1)
    }
}

/// Whether no two pairs have the same key.
pub open spec fn has_distinct_keys(pairs: Seq<(Seq<char>, Seq<char>)>) -> bool {
    forall|i: int, j: int|
        0 <= i < j < pairs.len() ==> (#[trigger] pairs[i]).0 != (#[trigger] pairs[j]).0
}

/// The single value of each query parameter: the last one given for it.
pub open spec fn last_query_values(query: Map<Seq<char>, Seq<Seq<char>>>) -> Map<
    Seq<char>,
    Seq<char>,
> {
    Map::new(|k: Seq<char>| query.contains_key(k), |k: Seq<char>| query[k].last())
}

/// Whether every value of every header is text.
pub open spec fn headers_are_text(headers: HeaderEntries) -> bool {
    forall|i: int| 0 <= i < headers.len() ==> (#[trigger] headers[i]).1 is Some
}

/// The entries of headers whose values are text, each as a name and a text.
pub open spec fn header_pairs(headers: HeaderEntries) -> Seq<(Seq<char>, Seq<char>)> {
    Seq::new(headers.len(), |i: int| (headers[i].0, headers[i].1->Some_0))
}

/// The single value of each header: the last one under its name.
pub open spec fn last_header_values(headers: HeaderEntries) -> Map<Seq<char>, Seq<char>> {
    map_of_pairs(header_pairs(headers))
}

/// The JSON object with a text member for each entry of the map.
pub open spec fn texts_object(m: Map<Seq<char>, Seq<char>>) -> Map<Seq<char>, JsonModel> {
    m.map_values(|t: Seq<char>| JsonModel::Text(t))
}

/// The routing context of the payload: its target is left open.
pub open spec fn routing_context() -> JsonModel {
    JsonModel::Object(
        json_no_members().insert(
            "elb"@,
            JsonModel::Object(json_no_members().insert("targetGroupArn"@, JsonModel::Null)),
        ),
    )
}

/// The invocation payload for a request.
pub open spec fn payload_model(
    is_base64_encoded: bool,
    query: Map<Seq<char>, Seq<char>>,
    method: Seq<char>,
    path: Seq<char>,
    headers: Map<Seq<char>, Seq<char>>,
    body: Seq<char>,
) -> JsonModel {
    JsonModel::Object(
        json_no_members().insert("httpMethod"@, JsonModel::Text(method)).insert(
            "path"@,
            JsonModel::Text(path),
        ).insert("queryStringParameters"@, JsonModel::Object(texts_object(query))).insert(
            "multiValueQueryStringParameters"@,
            JsonModel::Object(json_no_members()),
        ).insert("headers"@, JsonModel::Object(texts_object(headers))).insert(
            "multiValueHeaders"@,
            JsonModel::Object(json_no_members()),
        ).insert("requestContext"@, routing_context()).insert(
            "isBase64Encoded"@,
            JsonModel::Bool(is_base64_encoded),
        ).insert("body"@, JsonModel::Text(body)),
    )
}

/// The last value wins: a key has the value of the last pair that has it.
pub proof fn lemma_last_pair_wins(pairs: Seq<(Seq<char>, Seq<char>)>, i: int)
    requires
        0 <= i < pairs.len(),
        forall|j: int| i < j < pairs.len() ==> (#[trigger] pairs[j]).0 != pairs[i].0,
    ensures
        map_of_pairs(pairs).contains_key(pairs[i].0),
        map_of_pairs(pairs)[pairs[i].0] == pairs[i].1,
    decreases pairs.len(),
{
    if i < pairs.len() - 1 {
        let rest = pairs.drop_last();
        assert(pairs[pairs.len() - 1].0 != pairs[i].0);
        assert forall|j: int| i < j < rest.len() implies (#[trigger] rest[j]).0 != rest[i].0 by {
            assert(rest[j] == pairs[j]);
        }
        lemma_last_pair_wins(rest, i);
    }
}

/// A list of pairs with distinct keys gives the map that has exactly their
/// keys, each with its pair's value.
pub proof fn lemma_map_of_distinct_pairs(pairs: Seq<(Seq<char>, Seq<char>)>)
    requires
        has_distinct_keys(pairs),
    ensures
        forall|k: Seq<char>|
            map_of_pairs(pairs).contains_key(k) <==> exists|i: int|
                0 <= i < pairs.len() && (#[trigger] pairs[i]).0 == k,
        forall|i: int|
            0 <= i < pairs.len() ==> map_of_pairs(pairs)[(#[trigger] pairs[i]).0] == pairs[i].1,
    decreases pairs.len(),
{
    if pairs.len() > 0 {
        let rest = pairs.drop_last();
        let last = pairs.last();
        assert forall|i: int, j: int| 0 <= i < j < rest.len() implies (#[trigger] rest[i]).0 != (
        #[trigger] rest[j]).0 by {
            assert(rest[i] == pairs[i] && rest[j] == pairs[j]);
        }
        lemma_map_of_distinct_pairs(rest);
        assert forall|i: int| 0 <= i < rest.len() implies #[trigger] rest[i] == pairs[i] by {}
        assert forall|k: Seq<char>|
            map_of_pairs(pairs).contains_key(k) <==> exists|i: int|
                0 <= i < pairs.len() && (#[trigger] pairs[i]).0 == k by {
            if map_of_pairs(pairs).contains_key(k) {
                if k == last.0 {
                    assert(pairs[pairs.len() - 1].0 == k);
                } else {
                    assert(map_of_pairs(rest).contains_key(k));
                    let i = choose|i: int| 0 <= i < rest.len() && (#[trigger] rest[i]).0 == k;
                    assert(rest[i] == pairs[i]);
                    assert(pairs[i].0 == k);
                }
            }
            if exists|i: int| 0 <= i < pairs.len() && (#[trigger] pairs[i]).0 == k {
                let i = choose|i: int| 0 <= i < pairs.len() && (#[trigger] pairs[i]).0 == k;
                if i < rest.len() {
                    assert(rest[i].0 == k);
                }
            }
        }
        assert forall|i: int| 0 <= i < pairs.len() implies map_of_pairs(pairs)[(
        #[trigger] pairs[i]).0] == pairs[i].1 by {
            if i < rest.len() {
                assert(rest[i] == pairs[i]);
                assert(pairs[i].0 != pairs[pairs.len() - 1].0);
            }
        }
    }
}

/// Where among the pairs the key `key` stands.
fn position_of(pairs: &Vec<(String, String)>, key: &str) -> (r: Option<usize>)
    ensures
        match r {
            Some(j) => j < pairs.len() && pairs_model(pairs@)[j as int].0 == key@,
            None => forall|i: int|
                0 <= i < pairs.len() ==> (#[trigger] pairs_model(pairs@)[i]).0 != key@,
        },
{
    let mut i: usize = 0;
    while i < pairs.len()
        invariant
            i <= pairs.len(),
            forall|j: int| 0 <= j < i ==> (#[trigger] pairs_model(pairs@)[j]).0 != key@,
        decreases pairs.len() - i,
    {
        if text_eq(pairs[i].0.as_str(), key) {
            return Some(i);
        }
        i += 1;
    }
    None
}

/// Gives `key` the value `value`: in place of the value it has, or as a new
/// pair at the end.
fn put(pairs: &mut Vec<(String, String)>, key: &str, value: &str)
    requires
        has_distinct_keys(pairs_model(old(pairs)@)),
    ensures
        has_distinct_keys(pairs_model(final(pairs)@)),
        map_of_pairs(pairs_model(final(pairs)@)) == map_of_pairs(pairs_model(old(pairs)@)).insert(
            key@,
            value@,
        ),
{
    let ghost before = pairs_model(pairs@);
    match position_of(pairs, key) {
        Some(j) => {
            pairs.set(j, (key.to_owned(), value.to_owned()));
            proof {
                let after = pairs_model(pairs@);
                assert forall|a: int, b: int| 0 <= a < b < after.len() implies (
                #[trigger] after[a]).0 != (#[trigger] after[b]).0 by {
                    assert(after[a].0 == before[a].0 && after[b].0 == before[b].0);
                }
                lemma_map_of_distinct_pairs(before);
                lemma_map_of_distinct_pairs(after);
                assert forall|k: Seq<char>|
                    map_of_pairs(after).contains_key(k) <==> map_of_pairs(before).insert(
                        key@,
                        value@,
                    ).contains_key(k) by {
                    if map_of_pairs(after).contains_key(k) {
                        let i = choose|i: int| 0 <= i < after.len() && (#[trigger] after[i]).0 == k;
                        assert(before[i].0 == k);
                    }
                    if map_of_pairs(before).contains_key(k) {
                        let i = choose|i: int|
                            0 <= i < before.len() && (#[trigger] before[i]).0 == k;
                        assert(after[i].0 == k);
                    }
                    if k == key@ {
                        assert(after[j as int].0 == k);
                    }
                }
                assert forall|k: Seq<char>| map_of_pairs(after).contains_key(k) implies map_of_pairs(
                    after,
                )[k] == map_of_pairs(before).insert(key@, value@)[k] by {
                    let i = choose|i: int| 0 <= i < after.len() && (#[trigger] after[i]).0 == k;
                    assert(map_of_pairs(after)[after[i].0] == after[i].1);
                    if i != j {
                        assert(before[i] == after[i]);
                        assert(map_of_pairs(before)[before[i].0] == before[i].1);
                        if i < j {
                            assert(before[i].0 != before[j as int].0);
                        } else {
                            assert(before[j as int].0 != before[i].0);
                        }
                    }
                }
            }
        },
        None => {
            pairs.push((key.to_owned(), value.to_owned()));
            proof {
                let after = pairs_model(pairs@);
                assert(after =~= before.push((key@, value@)));
                assert(after.drop_last() =~= before);
            }
        },
    }
}

/// Gives each query parameter its single value, the last one given for it.
/// The pairs come in no particular order, each key once.
pub fn query_map_to_hash_map(map: &aws_lambda_events::query_map::QueryMap) -> (r: Vec<
    (String, String),
>)
    requires
        query_map_walkable(*map),
    ensures
        has_distinct_keys(pairs_model(r@)),
        map_of_pairs(pairs_model(r@)) == last_query_values(query_map_model(*map)),
{
    let ghost query = query_map_model(*map);
    let keys = query_keys(map);
    let ghost walked = keys.deep_view();
    let mut out: Vec<(String, String)> = Vec::new();
    let mut i: usize = 0;
    proof {
        assert(map_of_pairs(pairs_model(out@)) =~= last_query_values(query).restrict(
            walked.take(0).to_set(),
        ));
    }
    while i < keys.len()
        invariant
            query == query_map_model(*map),
            query_map_walkable(*map),
            walked == keys.deep_view(),
            walked.to_set() == query.dom(),
            i <= keys.len(),
            has_distinct_keys(pairs_model(out@)),
            map_of_pairs(pairs_model(out@)) == last_query_values(query).restrict(
                walked.take(i as int).to_set(),
            ),
        decreases keys.len() - i,
    {
        let key = keys[i].as_str();
        proof {
            assert(walked[i as int] == key@);
            assert(walked.to_set().contains(walked[i as int]));
            assert(query.contains_key(key@));
        }
        match query_values(map, key) {
            Some(values) => {
                if values.len() > 0 {
                    put(&mut out, key, values[values.len() - 1].as_str());
                }
            },
            None => {},
        }
        proof {
            let earlier = walked.take(i as int);
            let through = walked.take(i + 1);
            let seen = earlier.to_set();
            let next = through.to_set();
            assert forall|k: Seq<char>| next.contains(k) <==> seen.contains(k) || k == key@ by {
                if next.contains(k) {
                    let t = choose|t: int| 0 <= t < through.len() && #[trigger] through[t] == k;
                    if t < i {
                        assert(earlier[t] == k);
                    }
                }
                if seen.contains(k) {
                    let t = choose|t: int| 0 <= t < earlier.len() && #[trigger] earlier[t] == k;
                    assert(through[t] == k);
                }
                if k == key@ {
                    assert(through[i as int] == k);
                }
            }
        }
        i += 1;
    }
    proof {
        assert(walked.take(i as int) =~= walked);
    }
    out
}

/// Gives each header its single value, the last one under its name, where
/// every value of every header is text. The pairs come in the order in which
/// their names first occur, each name once.
pub fn header_map_to_hash_map(map: &Headers) -> (r: Option<Vec<(String, String)>>)
    ensures
        match r {
            Some(pairs) => headers_are_text(header_map_model(*map)) && has_distinct_keys(
                pairs_model(pairs@),
            ) && map_of_pairs(pairs_model(pairs@)) == last_header_values(header_map_model(*map)),
            None => !headers_are_text(header_map_model(*map)),
        },
{
    let ghost headers = header_map_model(*map);
    let entries = header_entries(map);
    let mut out: Vec<(String, String)> = Vec::new();
    let mut i: usize = 0;
    while i < entries.len()
        invariant
            headers == header_map_model(*map),
            entries.deep_view() == headers,
            i <= entries.len() == headers.len(),
            forall|j: int| 0 <= j < i ==> (#[trigger] headers[j]).1 is Some,
            has_distinct_keys(pairs_model(out@)),
            map_of_pairs(pairs_model(out@)) == map_of_pairs(header_pairs(headers).take(i as int)),
        decreases entries.len() - i,
    {
        match &entries[i].1 {
            Some(value) => {
                put(&mut out, entries[i].0.as_str(), value.as_str());
                proof {
                    let pairs = header_pairs(headers);
                    assert(pairs.take(i + 1).drop_last() =~= pairs.take(i as int));
                }
            },
            None => {
                assert(headers[i as int].1 is None);
                return None;
            },
        }
        i += 1;
    }
    proof {
        assert(header_pairs(headers).take(i as int) =~= header_pairs(headers));
    }
    Some(out)
}

/// Makes the JSON object that has a text member for each pair.
fn object_of_pairs(pairs: &Vec<(String, String)>) -> (r: JsonObject)
    ensures
        json_object_model(r) == texts_object(map_of_pairs(pairs_model(pairs@))),
{
    let ghost all = pairs_model(pairs@);
    let mut object = json_object_new();
    let mut i: usize = 0;
    while i < pairs.len()
        invariant
            all == pairs_model(pairs@),
            i <= pairs.len(),
            json_object_model(object) == texts_object(map_of_pairs(all.take(i as int))),
        decreases pairs.len() - i,
    {
        let value = json_from_str(pairs[i].1.as_str());
        json_object_insert(&mut object, pairs[i].0.as_str(), value);
        proof {
            assert(all.take(i + 1).drop_last() =~= all.take(i as int));
        }
        i += 1;
    }
    proof {
        assert(all.take(i as int) =~= all);
    }
    object
}

/// Builds the invocation payload for a request: the JSON text with the
/// members `httpMethod`, `path`, `queryStringParameters`, `headers`,
/// `isBase64Encoded` and `body`, the two multi-value members left empty, and
/// a routing context without target. A header with a value that is not text
/// cannot be carried: that is a translation error.
pub fn build_alb_request_body(
    is_base64_encoded: bool,
    query_string_parameters: &aws_lambda_events::query_map::QueryMap,
    method: &str,
    path: &str,
    headers: &Headers,
    body: &str,
) -> (r: Result<String, GatewayError>)
    requires
        query_map_walkable(*query_string_parameters),
    ensures
        match r {
            Ok(payload) => headers_are_text(header_map_model(*headers)) && payload@ == json_text(
                payload_model(
                    is_base64_encoded,
                    last_query_values(query_map_model(*query_string_parameters)),
                    method@,
                    path@,
                    last_header_values(header_map_model(*headers)),
                    body@,
                ),
            ),
            Err(e) => e == GatewayError::TranslationError && !headers_are_text(
                header_map_model(*headers),
            ),
        },
{
    let header_pairs = match header_map_to_hash_map(headers) {
        Some(pairs) => pairs,
        None => {
            return Err(GatewayError::TranslationError);
        },
    };
    let query_pairs = query_map_to_hash_map(query_string_parameters);
    let mut elb = json_object_new();
    json_object_insert(&mut elb, "targetGroupArn", json_null());
    let mut context = json_object_new();
    json_object_insert(&mut context, "elb", json_from_object(elb));
    let mut payload = json_object_new();
    json_object_insert(&mut payload, "httpMethod", json_from_str(method));
    json_object_insert(&mut payload, "path", json_from_str(path));
    json_object_insert(
        &mut payload,
        "queryStringParameters",
        json_from_object(object_of_pairs(&query_pairs)),
    );
    json_object_insert(
        &mut payload,
        "multiValueQueryStringParameters",
        json_from_object(json_object_new()),
    );
    json_object_insert(&mut payload, "headers", json_from_object(object_of_pairs(&header_pairs)));
    json_object_insert(&mut payload, "multiValueHeaders", json_from_object(json_object_new()));
    json_object_insert(&mut payload, "requestContext", json_from_object(context));
    json_object_insert(&mut payload, "isBase64Encoded", json_from_bool(is_base64_encoded));
    json_object_insert(&mut payload, "body", json_from_str(body));
    Ok(json_render(&json_from_object(payload)))
}

} // verus!
