//! The data of one log record, as the appenders read it.
use vstd::prelude::*;
use crate::level::Level;

verus! {

/// One log record: its level, target, source location, formatted message and
/// key/value pairs (keys in the order in which the record lists them).
pub struct Record {
    pub level: Level,
    pub target: String,
    pub module: Option<String>,
    pub file: Option<String>,
    pub line: Option<u32>,
    pub args: String,
    pub key_values: Vec<(String, serde_json::Value)>,
}

/// The characters of an optional string, or the empty sequence for `None`.
pub open spec fn opt_chars(s: Option<String>) -> Seq<char> {
    match s {
        Some(t) => t@,
        None => Seq::empty(),
    }
}

/// The entries that key/value pairs give when they are added one after the
/// other: each key with the value of its last pair.
pub open spec fn pairs_entries(pairs: Seq<(String, serde_json::Value)>) -> Map<Seq<char>, serde_json::Value>
    decreases pairs.len(),
{
    if pairs.len() == 0 {
        Map::empty()
    } else {
        pairs_entries(pairs.drop_last()).insert(pairs.last().0@, pairs.last().1)
    }
}

impl Record {
    /// The module path of the record, empty when it has none.
    pub open spec fn module_chars(&self) -> Seq<char> {
        opt_chars(self.module)
    }

    /// The file of the record, empty when it has none.
    pub open spec fn file_chars(&self) -> Seq<char> {
        opt_chars(self.file)
    }

    /// The line of the record, 0 when it has none.
    pub open spec fn line_or_zero(&self) -> u32 {
        match self.line {
            Some(n) => n,
            None => 0,
        }
    }

    /// The keys of the record's key/value pairs, in order.
    pub open spec fn keys(&self) -> Seq<Seq<char>> {
        self.key_values@.map_values(|kv: (String, serde_json::Value)| kv.0@)
    }

    /// The entries of the record's key/value pairs: each key with the value
    /// of its last pair.
    pub open spec fn entries(&self) -> Map<Seq<char>, serde_json::Value> {
        pairs_entries(self.key_values@)
    }

    /// A record of the given level with an empty target and message, no
    /// source location and no key/value pairs.
    pub fn new(level: Level) -> (r: Record)
        ensures
            r.level == level,
            r.target@ == Seq::<char>::empty(),
            r.module is None,
            r.file is None,
            r.line is None,
            r.args@ == Seq::<char>::empty(),
            r.key_values@.len() == 0,
    {
        Record {
            level,
            target: String::new(),
            module: None,
            file: None,
            line: None,
            args: String::new(),
            key_values: Vec::new(),
        }
    }

    pub fn level(&self) -> (l: Level)
        ensures
            l == self.level,
    {
        self.level
    }

    pub fn target(&self) -> (t: &str)
        ensures
            t@ == self.target@,
    {
        self.target.as_str()
    }

    /// The module path, the empty string when the record has none.
    pub fn module_or_empty(&self) -> (m: &str)
        ensures
            m@ == self.module_chars(),
    {
        match &self.module {
            Some(m) => m.as_str(),
            None => {
                proof {
                    reveal_strlit("");
                }
                ""
            },
        }
    }

    /// The file, the empty string when the record has none.
    pub fn file_or_empty(&self) -> (f: &str)
        ensures
            f@ == self.file_chars(),
    {
        match &self.file {
            Some(f) => f.as_str(),
            None => {
                proof {
                    reveal_strlit("");
                }
                ""
            },
        }
    }

    /// The line, 0 when the record has none.
    pub fn line_or_default(&self) -> (n: u32)
        ensures
            n == self.line_or_zero(),
    {
        match self.line {
            Some(n) => n,
            None => 0,
        }
    }

    pub fn args(&self) -> (a: &str)
        ensures
            a@ == self.args@,
    {
        self.args.as_str()
    }
}

} // verus!
