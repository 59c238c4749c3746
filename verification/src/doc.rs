//! Reading the JSON documents the structural parser produces: arrays of
//! items under a key, and typed fields of each item.
use vstd::prelude::*;
use crate::json_edit::{
    array_view, as_array, as_bool, as_str, as_u64, field, get_field, json_view, lemma_array_view,
    value_as_array, value_as_bool, value_as_str, value_as_u64, JsonValue, JsonView,
};

verus! {

/// Field `k` of an optional value.
pub open spec fn field_in(v: Option<JsonView>, k: Seq<char>) -> Option<JsonView> {
    match v {
        Some(x) => field(x, k),
        None => None,
    }
}

/// The string field `k` of an item.
pub open spec fn str_of(item: JsonView, k: Seq<char>) -> Option<Seq<char>> {
    as_str(field(item, k))
}

/// The unsigned integer field `k` of an item.
pub open spec fn u64_of(item: JsonView, k: Seq<char>) -> Option<u64> {
    as_u64(field(item, k))
}

/// The boolean field `k` of an item.
pub open spec fn bool_of(item: JsonView, k: Seq<char>) -> Option<bool> {
    as_bool(field(item, k))
}

/// Abstract values of a list of JSON values.
pub open spec fn json_views(s: Seq<JsonValue>) -> Seq<JsonView> {
    s.map_values(|v: JsonValue| json_view(v))
}

/// The array under key `k`.
pub open spec fn items_of(doc: JsonView, k: Seq<char>) -> Option<Seq<JsonView>> {
    as_array(field(doc, k))
}

/// The string field `k` of an item.
pub fn str_at<'a>(item: &'a JsonValue, k: &str) -> (r: Option<&'a String>)
    ensures
        match str_of(json_view(*item), k@) {
            Some(s) => r is Some && r->Some_0@ == s,
            None => r is None,
        },
{
    value_as_str(get_field(item, k))
}

/// The unsigned integer field `k` of an item.
pub fn u64_at(item: &JsonValue, k: &str) -> (r: Option<u64>)
    ensures
        r == u64_of(json_view(*item), k@),
{
    value_as_u64(get_field(item, k))
}

/// The boolean field `k` of an item.
pub fn bool_at(item: &JsonValue, k: &str) -> (r: Option<bool>)
    ensures
        r == bool_of(json_view(*item), k@),
{
    value_as_bool(get_field(item, k))
}

/// The array under key `k`, element by element.
pub fn items_at<'a>(doc: &'a JsonValue, k: &str) -> (r: Option<&'a Vec<JsonValue>>)
    ensures
        match items_of(json_view(*doc), k@) {
            Some(a) => r is Some && a.len() == r->Some_0@.len() && (forall|i: int|
                0 <= i < a.len() ==> #[trigger] a[i] == json_view(r->Some_0@[i])) && a == json_views(
                r->Some_0@,
            ),
            None => r is None,
        },
{
    array_items(get_field(doc, k))
}

/// The elements of a value, if it is an array.
pub fn array_items<'a>(v: Option<&'a JsonValue>) -> (r: Option<&'a Vec<JsonValue>>)
    ensures
        match as_array(
            match v {
                Some(x) => Some(json_view(*x)),
                None => None,
            },
        ) {
            Some(a) => r is Some && a.len() == r->Some_0@.len() && (forall|i: int|
                0 <= i < a.len() ==> #[trigger] a[i] == json_view(r->Some_0@[i])) && a == json_views(
                r->Some_0@,
            ),
            None => r is None,
        },
{
    let r = value_as_array(v);
    match r {
        Some(a) => {
            proof {
                lemma_array_view(a@);
                assert(array_view(a@) =~= json_views(a@));
            }
        },
        None => {},
    }
    r
}

} // verus!
