//! The key/value pairs of a log message, collected into a JSON map.
use vstd::prelude::*;
use crate::json::{empty_entries, json_entries, json_map_new, json_map_insert, json_map_len, json_map_clone};

verus! {

/// The key/value pairs of a log message, keyed by their keys.
#[derive(Debug)]
pub struct KeyValues(serde_json::Map<String, serde_json::Value>);

impl KeyValues {
    /// The pairs of the collection: each key with its value.
    pub closed spec fn entries(&self) -> Map<Seq<char>, serde_json::Value> {
        json_entries(self.0)
    }

    /// The keys that the collection holds.
    pub open spec fn keys(&self) -> Set<Seq<char>> {
        self.entries().dom()
    }

    /// An empty collection.
    pub fn new() -> (kv: KeyValues)
        ensures
            kv.entries() == empty_entries(),
    {
        KeyValues(json_map_new())
    }

    /// Adds one pair; the value replaces the one that stood under the same
    /// key.
    pub fn visit_pair(&mut self, key: &str, value: serde_json::Value)
        ensures
            final(self).entries() == old(self).entries().insert(key@, value),
    {
        json_map_insert(&mut self.0, key.to_owned(), value);
    }

    /// The number of pairs, one per key.
    pub fn len(&self) -> (n: usize)
        ensures
            n == self.entries().len(),
    {
        json_map_len(&self.0)
    }

    /// The JSON map that holds the pairs.
    pub fn as_map(&self) -> (m: &serde_json::Map<String, serde_json::Value>)
        ensures
            json_entries(*m) == self.entries(),
    {
        &self.0
    }
}

impl Clone for KeyValues {
    fn clone(&self) -> (kv: KeyValues)
        ensures
            kv.entries() == self.entries(),
    {
        KeyValues(json_map_clone(&self.0))
    }
}

impl Default for KeyValues {
    fn default() -> (kv: KeyValues)
        ensures
            kv.entries() == empty_entries(),
    {
        KeyValues::new()
    }
}

} // verus!
