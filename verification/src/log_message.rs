//! Log messages, as appenders pass them on, and their text form.
use vstd::prelude::*;
use crate::json::json_value_clone;
use crate::kvs::KeyValues;
use crate::level::Level;
use crate::record::{Record, pairs_entries};
use crate::text::{decimal, push_decimal};

verus! {

/// What a log message holds, as values.
pub struct LogMessageView {
    pub level: Level,
    pub target: Seq<char>,
    pub module: Seq<char>,
    pub file_name: Seq<char>,
    pub line_no: u32,
    pub message: Seq<char>,
    pub timestamp: Seq<char>,
    pub entries: Map<Seq<char>, serde_json::Value>,
}

/// A log message: the data of a record, taken when it was appended.
#[derive(Debug)]
pub struct LogMessage {
    level: Level,
    target: String,
    module: String,
    file_name: String,
    line_no: u32,
    message: String,
    timestamp: String,
    key_values: KeyValues,
}

impl View for LogMessage {
    type V = LogMessageView;

    closed spec fn view(&self) -> LogMessageView {
        LogMessageView {
            level: self.level,
            target: self.target@,
            module: self.module@,
            file_name: self.file_name@,
            line_no: self.line_no,
            message: self.message@,
            timestamp: self.timestamp@,
            entries: self.key_values.entries(),
        }
    }
}

/// The time stamp of the messages that the library builds on its own: it
/// reads no clock, so the stamp is empty. A stamp read from a clock is handed
/// in through `LogMessage::from_record_at` and the appenders' `_at` methods.
pub open spec fn spec_timestamp() -> Seq<char> {
    Seq::empty()
}

/// The time stamp of a message taken now.
pub fn get_timestamp() -> (s: String)
    ensures
        s@ == spec_timestamp(),
{
    String::new()
}

/// The message that a record becomes, with the given time stamp.
pub open spec fn message_of(record: &Record, timestamp: Seq<char>) -> LogMessageView {
    LogMessageView {
        level: record.level,
        target: record.target@,
        module: record.module_chars(),
        file_name: record.file_chars(),
        line_no: record.line_or_zero(),
        message: record.args@,
        timestamp,
        entries: record.entries(),
    }
}

impl LogMessage {
    pub fn level(&self) -> (l: Level)
        ensures
            l == self@.level,
    {
        self.level
    }

    pub fn target(&self) -> (t: &str)
        ensures
            t@ == self@.target,
    {
        self.target.as_str()
    }

    pub fn module(&self) -> (m: &str)
        ensures
            m@ == self@.module,
    {
        self.module.as_str()
    }

    pub fn file_name(&self) -> (f: &str)
        ensures
            f@ == self@.file_name,
    {
        self.file_name.as_str()
    }

    pub fn line_no(&self) -> (n: u32)
        ensures
            n == self@.line_no,
    {
        self.line_no
    }

    pub fn message(&self) -> (m: &str)
        ensures
            m@ == self@.message,
    {
        self.message.as_str()
    }

    pub fn timestamp(&self) -> (t: &str)
        ensures
            t@ == self@.timestamp,
    {
        self.timestamp.as_str()
    }

    pub fn key_values(&self) -> (kv: &KeyValues)
        ensures
            kv.entries() == self@.entries,
    {
        &self.key_values
    }

    /// The message of a record: its level, target, module path (empty when
    /// it has none), file (empty when it has none), line (0 when it has
    /// none), formatted text, the current time stamp, and its key/value
    /// pairs, each key with the value of its last pair.
    pub fn from_record(record: &Record) -> (m: LogMessage)
        ensures
            m@ == message_of(record, spec_timestamp()),
            m@.level == record.level,
            m@.target == record.target@,
            record.module matches Some(md) ==> m@.module == md@,
            record.module is None ==> m@.module == Seq::<char>::empty(),
            record.file matches Some(f) ==> m@.file_name == f@,
            record.file is None ==> m@.file_name == Seq::<char>::empty(),
            record.line matches Some(n) ==> m@.line_no == n,
            record.line is None ==> m@.line_no == 0,
            m@.message == record.args@,
            m@.entries == record.entries(),
            m@.timestamp == spec_timestamp(),
    {
        LogMessage::from_record_at(record, get_timestamp())
    }

    /// The message of a record, stamped with `timestamp`.
    pub fn from_record_at(record: &Record, timestamp: String) -> (m: LogMessage)
        ensures
            m@ == message_of(record, timestamp@),
            m@.level == record.level,
            m@.target == record.target@,
            record.module matches Some(md) ==> m@.module == md@,
            record.module is None ==> m@.module == Seq::<char>::empty(),
            record.file matches Some(f) ==> m@.file_name == f@,
            record.file is None ==> m@.file_name == Seq::<char>::empty(),
            record.line matches Some(n) ==> m@.line_no == n,
            record.line is None ==> m@.line_no == 0,
            m@.message == record.args@,
            m@.entries == record.entries(),
            m@.timestamp == timestamp@,
    {
        let mut key_values = KeyValues::new();
        let n = record.key_values.len();
        let ghost pairs = record.key_values@;
        let mut i: usize = 0;
        proof {
            assert(pairs.take(0) =~= Seq::<(String, serde_json::Value)>::empty());
        }
        while i < n
            invariant
                n == record.key_values@.len(),
                pairs == record.key_values@,
                i <= n,
                key_values.entries() == pairs_entries(pairs.take(i as int)),
            decreases n - i,
        {
            let pair = &record.key_values[i];
            key_values.visit_pair(pair.0.as_str(), json_value_clone(&pair.1));
            proof {
                assert(pairs.take(i + 1).drop_last() =~= pairs.take(i as int));
                assert(pairs.take(i + 1).last() == pairs[i as int]);
            }
            i = i + 1;
        }
        assert(pairs.take(n as int) =~= pairs);
        LogMessage {
            level: record.level(),
            target: record.target.clone(),
            module: record.module_or_empty().to_owned(),
            file_name: record.file_or_empty().to_owned(),
            line_no: record.line_or_default(),
            message: record.args.clone(),
            timestamp,
            key_values,
        }
    }
}

impl Clone for LogMessage {
    fn clone(&self) -> (m: LogMessage)
        ensures
            m@ == self@,
    {
        LogMessage {
            level: self.level,
            target: self.target.clone(),
            module: self.module.clone(),
            file_name: self.file_name.clone(),
            line_no: self.line_no,
            message: self.message.clone(),
            timestamp: self.timestamp.clone(),
            key_values: self.key_values.clone(),
        }
    }
}

/// A formatter that users implement to turn a record into the text that an
/// appender writes; `None` writes nothing.
pub trait FormatMessage: Send + Sync + 'static {
    fn format_message(&self, record: &Record) -> Option<String>;
}

/// The line that the default formatter writes for a record:
/// `"{timestamp} {level} {module} [{file}:{line}] {message}\n\n"`.
pub open spec fn formatted_line(timestamp: Seq<char>, record: &Record) -> Seq<char> {
    timestamp + " "@ + record.level.name() + " "@ + record.module_chars() + " ["@
        + record.file_chars() + ":"@ + decimal(record.line_or_zero() as nat) + "] "@
        + record.args@ + "\n\n"@
}

/// The formatter that appenders use unless they are given another.
pub struct DefaultFormatter;

/// The line of the default format for `record` with the time stamp
/// `timestamp`.
pub fn format_line(timestamp: &str, record: &Record) -> (line: String)
    ensures
        line@ == formatted_line(timestamp@, record),
{
    let mut out = timestamp.to_owned();
    out.append(" ");
    out.append(record.level().as_str());
    out.append(" ");
    out.append(record.module_or_empty());
    out.append(" [");
    out.append(record.file_or_empty());
    out.append(":");
    push_decimal(&mut out, record.line_or_default());
    out.append("] ");
    out.append(record.args());
    out.append("\n\n");
    out
}

impl FormatMessage for DefaultFormatter {
    fn format_message(&self, record: &Record) -> (s: Option<String>)
        ensures
            s matches Some(t) && t@ == formatted_line(spec_timestamp(), record),
    {
        let ts = get_timestamp();
        Some(format_line(ts.as_str(), record))
    }
}

} // verus!

verus! {

/// The keys of the entries that pairs give are the keys of the pairs.
pub proof fn lemma_pairs_entries_keys(pairs: Seq<(String, serde_json::Value)>)
    ensures
        pairs_entries(pairs).dom() == pairs.map_values(|kv: (String, serde_json::Value)| kv.0@).to_set(),
    decreases pairs.len(),
{
    let keys = pairs.map_values(|kv: (String, serde_json::Value)| kv.0@);
    if pairs.len() > 0 {
        let front = pairs.drop_last();
        lemma_pairs_entries_keys(front);
        let front_keys = front.map_values(|kv: (String, serde_json::Value)| kv.0@);
        assert(keys =~= front_keys.push(pairs.last().0@));
        front_keys.lemma_push_to_set_commute(pairs.last().0@);
    } else {
        assert(keys.to_set() =~= Set::<Seq<char>>::empty());
    }
}

/// Under each key of the entries that pairs give stands the value of the
/// last pair with that key.
pub proof fn lemma_last_pair_wins(pairs: Seq<(String, serde_json::Value)>, i: int)
    requires
        0 <= i < pairs.len(),
        forall|j: int| i < j < pairs.len() ==> (#[trigger] pairs[j]).0@ != pairs[i].0@,
    ensures
        pairs_entries(pairs).contains_key(pairs[i].0@),
        pairs_entries(pairs)[pairs[i].0@] == pairs[i].1,
    decreases pairs.len(),
{
    if i < pairs.len() - 1 {
        let front = pairs.drop_last();
        assert forall|j: int| i < j < front.len() implies (#[trigger] front[j]).0@ != front[i].0@ by {
            assert(front[j] == pairs[j]);
        }
        lemma_last_pair_wins(front, i);
        assert(pairs.last() == pairs[pairs.len() - 1]);
    }
}

/// A record whose keys are all different becomes a message with as many
/// key/value pairs as the record has.
pub proof fn lemma_distinct_keys_all_kept(record: &Record, timestamp: Seq<char>)
    requires
        record.keys().no_duplicates(),
    ensures
        message_of(record, timestamp).entries.len() == record.key_values@.len(),
{
    lemma_pairs_entries_keys(record.key_values@);
    record.keys().unique_seq_to_set();
}

} // verus!

verus! {

/// `text` is an output that `formatter` may give for `record`, as far as its
/// contract says.
pub open spec fn formatter_gives<F: FormatMessage>(formatter: &F, record: &Record, text: Option<String>) -> bool {
    call_ensures(F::format_message, (formatter, record), text)
}

} // verus!
