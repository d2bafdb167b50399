//! The JSON map in which the key/value pairs of a record are collected.
use vstd::prelude::*;

verus! {

#[verifier::external_type_specification]
#[verifier::external_body]
#[verifier::reject_recursive_types(K)]
#[verifier::reject_recursive_types(V)]
pub struct ExJsonMap<K, V>(serde_json::Map<K, V>);

#[verifier::external_type_specification]
#[verifier::external_body]
pub struct ExJsonValue(serde_json::Value);

/// The entries of a JSON map: each key with the value under it.
pub uninterp spec fn json_entries(m: serde_json::Map<String, serde_json::Value>) -> Map<Seq<char>, serde_json::Value>;

/// No entries at all.
pub open spec fn empty_entries() -> Map<Seq<char>, serde_json::Value> {
    Map::empty()
}

/// `serde_json::Map::new`: a map with no entries.
#[verifier::external_body]
pub(crate) fn json_map_new() -> (m: serde_json::Map<String, serde_json::Value>)
    ensures
        json_entries(m) == empty_entries(),
{
    serde_json::Map::new()
}

/// `serde_json::Map::insert`: afterwards `value` stands under `key`, in
/// place of the value that stood there if the key was present; the other
/// entries stay.
#[verifier::external_body]
pub(crate) fn json_map_insert(
    m: &mut serde_json::Map<String, serde_json::Value>,
    key: String,
    value: serde_json::Value,
)
    ensures
        json_entries(*final(m)) == json_entries(*old(m)).insert(key@, value),
{
    m.insert(key, value);
}

/// `serde_json::Map::len`: the number of entries in the map.
#[verifier::external_body]
pub(crate) fn json_map_len(m: &serde_json::Map<String, serde_json::Value>) -> (n: usize)
    ensures
        n == json_entries(*m).len(),
{
    m.len()
}

/// `<serde_json::Map as Clone>::clone`: a copy holds the same entries.
#[verifier::external_body]
pub(crate) fn json_map_clone(
    m: &serde_json::Map<String, serde_json::Value>,
) -> (c: serde_json::Map<String, serde_json::Value>)
    ensures
        json_entries(c) == json_entries(*m),
{
    m.clone()
}

/// `<serde_json::Value as Clone>::clone`, which is derived: the copy is the
/// same JSON value.
#[verifier::external_body]
pub(crate) fn json_value_clone(v: &serde_json::Value) -> (c: serde_json::Value)
    ensures
        c == *v,
{
    v.clone()
}

} // verus!
