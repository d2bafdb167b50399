//! The appender whose messages are queued for a remote collector.
use vstd::prelude::*;
use crate::appenders::append::{
    Append, ModuleLevel, levels_sorted, insert_module_level, insert_index, spec_enabled, should_append,
};
use crate::level::LevelFilter;
use crate::log_message::{LogMessage, get_timestamp, message_of, spec_timestamp};
use crate::message_filter::{DefaultMessageFilter, MessageFilter, filter_gives};
use crate::record::{Record, opt_chars};

verus! {

/// The appender whose messages are queued and sent in batches to a remote
/// collector, let through by the message filter `M`.
pub struct RemoteAppender<M = DefaultMessageFilter> {
    target: Option<String>,
    max_level: LevelFilter,
    module_levels: Vec<ModuleLevel>,
    message_filter: M,
}

impl RemoteAppender<DefaultMessageFilter> {
    /// An appender with no target, the verbosity limit `Trace`, no module
    /// limits and the default message filter.
    pub fn new() -> (a: RemoteAppender<DefaultMessageFilter>)
        ensures
            levels_sorted(a.spec_module_levels()),
            a.spec_target() == Seq::<char>::empty(),
            a.spec_max_level() == LevelFilter::Trace,
            a.spec_module_levels() == Seq::<ModuleLevel>::empty(),
            a.spec_message_filter() == DefaultMessageFilter,
    {
        RemoteAppender {
            target: None,
            max_level: LevelFilter::Trace,
            module_levels: Vec::new(),
            message_filter: DefaultMessageFilter,
        }
    }
}

impl<M> RemoteAppender<M> {
    #[verifier::type_invariant]
    spec fn module_levels_in_order(self) -> bool {
        levels_sorted(self.module_levels@)
    }
}

impl<M: MessageFilter> RemoteAppender<M> {
    /// The message filter of the appender.
    pub closed spec fn spec_message_filter(&self) -> M {
        self.message_filter
    }

    pub fn with_target(self, target: &str) -> (a: RemoteAppender<M>)
        ensures
            levels_sorted(a.spec_module_levels()),
            a.spec_target() == target@,
            a.spec_max_level() == self.spec_max_level(),
            a.spec_module_levels() == self.spec_module_levels(),
            a.spec_message_filter() == self.spec_message_filter(),
    {
        proof {
            use_type_invariant(&self);
        }
        let mut a = self;
        a.target = Some(target.to_owned());
        proof {
            use_type_invariant(&a);
        }
        a
    }

    pub fn with_max_level(self, level: LevelFilter) -> (a: RemoteAppender<M>)
        ensures
            levels_sorted(a.spec_module_levels()),
            a.spec_target() == self.spec_target(),
            a.spec_max_level() == level,
            a.spec_module_levels() == self.spec_module_levels(),
            a.spec_message_filter() == self.spec_message_filter(),
    {
        proof {
            use_type_invariant(&self);
        }
        let mut a = self;
        a.max_level = level;
        proof {
            use_type_invariant(&a);
        }
        a
    }

    /// The same appender with `message_filter` in place of its message
    /// filter.
    pub fn with_message_filter<N: MessageFilter>(self, message_filter: N) -> (a: RemoteAppender<N>)
        ensures
            levels_sorted(a.spec_module_levels()),
            a.spec_target() == self.spec_target(),
            a.spec_max_level() == self.spec_max_level(),
            a.spec_module_levels() == self.spec_module_levels(),
            a.spec_message_filter() == message_filter,
    {
        proof {
            use_type_invariant(&self);
        }
        let RemoteAppender { target, max_level, module_levels, message_filter: _ } = self;
        let a = RemoteAppender { target, max_level, module_levels, message_filter };
        proof {
            use_type_invariant(&a);
        }
        a
    }

    /// Adds a module limit; the limits stay ordered with an empty name first
    /// and then from the longest name to the shortest, a new limit after the
    /// ones of its own length.
    pub fn with_module_level(self, module_level: ModuleLevel) -> (a: RemoteAppender<M>)
        ensures
            levels_sorted(a.spec_module_levels()),
            a.spec_target() == self.spec_target(),
            a.spec_max_level() == self.spec_max_level(),
            a.spec_module_levels() == self.spec_module_levels().insert(
                insert_index(self.spec_module_levels(), module_level.0@),
                module_level,
            ),
            a.spec_message_filter() == self.spec_message_filter(),
    {
        proof {
            use_type_invariant(&self);
        }
        let RemoteAppender { target, max_level, mut module_levels, message_filter } = self;
        insert_module_level(&mut module_levels, module_level);
        let a = RemoteAppender { target, max_level, module_levels, message_filter };
        proof {
            use_type_invariant(&a);
        }
        a
    }

    /// The message that appending `record` passes on: the record's message,
    /// with an empty time stamp, when the message filter lets it through and
    /// the appender takes it; nothing otherwise.
    pub fn message_to_queue(&self, record: &Record) -> (m: Option<LogMessage>)
        ensures
            m is Some ==> {
                &&& spec_enabled(self.spec_target(), self.spec_max_level(), self.spec_module_levels(), record)
                &&& filter_gives(&self.spec_message_filter(), record, true)
            },
            m is None ==> {
                ||| !spec_enabled(self.spec_target(), self.spec_max_level(), self.spec_module_levels(), record)
                ||| filter_gives(&self.spec_message_filter(), record, false)
            },
            m matches Some(msg) ==> msg@ == message_of(record, spec_timestamp()),
    {
        self.message_to_queue_at(record, get_timestamp())
    }

    /// The message that appending `record` passes on, stamped with
    /// `timestamp`, when the message filter lets it through and the appender
    /// takes it; nothing otherwise.
    pub fn message_to_queue_at(&self, record: &Record, timestamp: String) -> (m: Option<LogMessage>)
        ensures
            m is Some ==> {
                &&& spec_enabled(self.spec_target(), self.spec_max_level(), self.spec_module_levels(), record)
                &&& filter_gives(&self.spec_message_filter(), record, true)
            },
            m is None ==> {
                ||| !spec_enabled(self.spec_target(), self.spec_max_level(), self.spec_module_levels(), record)
                ||| filter_gives(&self.spec_message_filter(), record, false)
            },
            m matches Some(msg) ==> msg@ == message_of(record, timestamp@),
    {
        let passes_filter = self.message_filter.filter_message(record);
        if should_append(self, record, passes_filter) {
            Some(LogMessage::from_record_at(record, timestamp))
        } else {
            None
        }
    }
}

impl<M: MessageFilter> Append for RemoteAppender<M> {
    closed spec fn spec_target(&self) -> Seq<char> {
        opt_chars(self.target)
    }

    closed spec fn spec_max_level(&self) -> LevelFilter {
        self.max_level
    }

    closed spec fn spec_module_levels(&self) -> Seq<ModuleLevel> {
        self.module_levels@
    }

    fn target(&self) -> (t: &str) {
        match &self.target {
            Some(t) => t.as_str(),
            None => {
                proof {
                    reveal_strlit("");
                }
                ""
            },
        }
    }

    fn max_level(&self) -> (l: LevelFilter) {
        self.max_level
    }

    fn module_level(&self) -> (m: &[ModuleLevel]) {
        self.module_levels.as_slice()
    }
}

} // verus!
