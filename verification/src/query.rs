//! Query parameters as `query_map` holds them.

use vstd::prelude::*;

verus! {

#[verifier::external_type_specification]
#[verifier::external_body]
pub struct ExQueryMap(aws_lambda_events::query_map::QueryMap);

/// For each key of a query map, the values given for it, in order.
pub uninterp spec fn query_map_model(q: aws_lambda_events::query_map::QueryMap) -> Map<
    Seq<char>,
    Seq<Seq<char>>,
>;

/// Whether every key of the query map has at least one value. Walking a map
/// that has a key without values fails.
pub open spec fn query_map_walkable(q: aws_lambda_events::query_map::QueryMap) -> bool {
    forall|k: Seq<char>| #[trigger]
        query_map_model(q).contains_key(k) ==> query_map_model(q)[k].len() > 0
}

/// `QueryMap::iter`, keeping the key of each pair: every key of the map, as
/// often as it has values, in an order that the contract leaves open.
#[verifier::external_body]
pub(crate) fn query_keys(q: &aws_lambda_events::query_map::QueryMap) -> (r: Vec<String>)
    requires
        query_map_walkable(*q),
    ensures
        r.deep_view().to_set() == query_map_model(*q).dom(),
{
    q.iter().map(|(k, _)| k.to_string()).collect()
}

/// `QueryMap::all`: the values given for `key`, in order, `None` where the
/// map lacks the key.
#[verifier::external_body]
pub(crate) fn query_values(q: &aws_lambda_events::query_map::QueryMap, key: &str) -> (r: Option<
    Vec<String>,
>)
    ensures
        r.is_some() == query_map_model(*q).contains_key(key@),
        r matches Some(values) ==> values.deep_view() == query_map_model(*q)[key@],
{
    q.all(key).map(|values| values.iter().map(|v| v.to_string()).collect())
}

} // verus!
