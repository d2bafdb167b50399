//! The appender whose messages go to the standard output.
use vstd::prelude::*;
use crate::appenders::append::{
    Append, ModuleLevel, levels_sorted, insert_module_level, insert_index, spec_enabled, should_append,
};
use crate::level::LevelFilter;
use crate::log_message::{DefaultFormatter, FormatMessage, formatter_gives};
use crate::message_filter::{DefaultMessageFilter, MessageFilter, filter_gives};
use crate::record::{Record, opt_chars};

verus! {

/// The appender whose messages go to the standard output, formatted by `F`
/// and let through by the message filter `M`.
pub struct ConsoleAppender<F = DefaultFormatter, M = DefaultMessageFilter> {
    target: Option<String>,
    max_level: LevelFilter,
    module_levels: Vec<ModuleLevel>,
    formatter: F,
    message_filter: M,
}

impl ConsoleAppender<DefaultFormatter, DefaultMessageFilter> {
    /// An appender with no target, the verbosity limit `Trace`, no module
    /// limits, the default formatter and the default message filter.
    pub fn new() -> (a: ConsoleAppender<DefaultFormatter, DefaultMessageFilter>)
        ensures
            levels_sorted(a.spec_module_levels()),
            a.spec_target() == Seq::<char>::empty(),
            a.spec_max_level() == LevelFilter::Trace,
            a.spec_module_levels() == Seq::<ModuleLevel>::empty(),
            a.spec_formatter() == DefaultFormatter,
            a.spec_message_filter() == DefaultMessageFilter,
    {
        ConsoleAppender {
            target: None,
            max_level: LevelFilter::Trace,
            module_levels: Vec::new(),
            formatter: DefaultFormatter,
            message_filter: DefaultMessageFilter,
        }
    }
}

impl<F, M> ConsoleAppender<F, M> {
    #[verifier::type_invariant]
    spec fn module_levels_in_order(self) -> bool {
        levels_sorted(self.module_levels@)
    }
}

impl<F: FormatMessage, M: MessageFilter> ConsoleAppender<F, M> {
    /// The formatter of the appender.
    pub closed spec fn spec_formatter(&self) -> F {
        self.formatter
    }

    /// The message filter of the appender.
    pub closed spec fn spec_message_filter(&self) -> M {
        self.message_filter
    }

    pub fn with_target(self, target: &str) -> (a: ConsoleAppender<F, M>)
        ensures
            levels_sorted(a.spec_module_levels()),
            a.spec_target() == target@,
            a.spec_max_level() == self.spec_max_level(),
            a.spec_module_levels() == self.spec_module_levels(),
            a.spec_formatter() == self.spec_formatter(),
            a.spec_message_filter() == self.spec_message_filter(),
    {
        proof {
            use_type_invariant(&self);
        }
        let mut a = self;
        a.target = Some(target.to_owned());
        proof {
            use_type_invariant(&a);
        }
        a
    }

    pub fn with_max_level(self, level: LevelFilter) -> (a: ConsoleAppender<F, M>)
        ensures
            levels_sorted(a.spec_module_levels()),
            a.spec_target() == self.spec_target(),
            a.spec_max_level() == level,
            a.spec_module_levels() == self.spec_module_levels(),
            a.spec_formatter() == self.spec_formatter(),
            a.spec_message_filter() == self.spec_message_filter(),
    {
        proof {
            use_type_invariant(&self);
        }
        let mut a = self;
        a.max_level = level;
        proof {
            use_type_invariant(&a);
        }
        a
    }

    /// The same appender with `formatter` in place of its formatter.
    pub fn with_formatter<G: FormatMessage>(self, formatter: G) -> (a: ConsoleAppender<G, M>)
        ensures
            levels_sorted(a.spec_module_levels()),
            a.spec_target() == self.spec_target(),
            a.spec_max_level() == self.spec_max_level(),
            a.spec_module_levels() == self.spec_module_levels(),
            a.spec_formatter() == formatter,
            a.spec_message_filter() == self.spec_message_filter(),
    {
        proof {
            use_type_invariant(&self);
        }
        let ConsoleAppender { target, max_level, module_levels, formatter: _, message_filter } = self;
        let a = ConsoleAppender { target, max_level, module_levels, formatter, message_filter };
        proof {
            use_type_invariant(&a);
        }
        a
    }

    /// The same appender with `message_filter` in place of its message
    /// filter.
    pub fn with_message_filter<N: MessageFilter>(self, message_filter: N) -> (a: ConsoleAppender<F, N>)
        ensures
            levels_sorted(a.spec_module_levels()),
            a.spec_target() == self.spec_target(),
            a.spec_max_level() == self.spec_max_level(),
            a.spec_module_levels() == self.spec_module_levels(),
            a.spec_formatter() == self.spec_formatter(),
            a.spec_message_filter() == message_filter,
    {
        proof {
            use_type_invariant(&self);
        }
        let ConsoleAppender { target, max_level, module_levels, formatter, message_filter: _ } = self;
        let a = ConsoleAppender { target, max_level, module_levels, formatter, message_filter };
        proof {
            use_type_invariant(&a);
        }
        a
    }

    /// Adds a module limit; the limits stay ordered with an empty name first
    /// and then from the longest name to the shortest, a new limit after the
    /// ones of its own length.
    pub fn with_module_level(self, module_level: ModuleLevel) -> (a: ConsoleAppender<F, M>)
        ensures
            levels_sorted(a.spec_module_levels()),
            a.spec_target() == self.spec_target(),
            a.spec_max_level() == self.spec_max_level(),
            a.spec_module_levels() == self.spec_module_levels().insert(
                insert_index(self.spec_module_levels(), module_level.0@),
                module_level,
            ),
            a.spec_formatter() == self.spec_formatter(),
            a.spec_message_filter() == self.spec_message_filter(),
    {
        proof {
            use_type_invariant(&self);
        }
        let ConsoleAppender { target, max_level, mut module_levels, formatter, message_filter } = self;
        insert_module_level(&mut module_levels, module_level);
        let a = ConsoleAppender { target, max_level, module_levels, formatter, message_filter };
        proof {
            use_type_invariant(&a);
        }
        a
    }

    /// What appending `record` writes to the standard output: what the
    /// formatter gives for the record, when the message filter lets it
    /// through and the appender takes it; nothing otherwise.
    pub fn message_to_write(&self, record: &Record) -> (s: Option<String>)
        ensures
            s is Some ==> {
                &&& spec_enabled(self.spec_target(), self.spec_max_level(), self.spec_module_levels(), record)
                &&& filter_gives(&self.spec_message_filter(), record, true)
                &&& formatter_gives(&self.spec_formatter(), record, s)
            },
            s is None ==> {
                ||| !spec_enabled(self.spec_target(), self.spec_max_level(), self.spec_module_levels(), record)
                ||| filter_gives(&self.spec_message_filter(), record, false)
                ||| formatter_gives(&self.spec_formatter(), record, None)
            },
    {
        let passes_filter = self.message_filter.filter_message(record);
        if should_append(self, record, passes_filter) {
            self.formatter.format_message(record)
        } else {
            None
        }
    }
}

impl Default for ConsoleAppender<DefaultFormatter, DefaultMessageFilter> {
    fn default() -> (a: ConsoleAppender<DefaultFormatter, DefaultMessageFilter>)
        ensures
            levels_sorted(a.spec_module_levels()),
            a.spec_target() == Seq::<char>::empty(),
            a.spec_max_level() == LevelFilter::Trace,
            a.spec_module_levels() == Seq::<ModuleLevel>::empty(),
            a.spec_formatter() == DefaultFormatter,
            a.spec_message_filter() == DefaultMessageFilter,
    {
        ConsoleAppender::new()
    }
}

impl<F: FormatMessage, M: MessageFilter> Append for ConsoleAppender<F, M> {
    closed spec fn spec_target(&self) -> Seq<char> {
        opt_chars(self.target)
    }

    closed spec fn spec_max_level(&self) -> LevelFilter {
        self.max_level
    }

    closed spec fn spec_module_levels(&self) -> Seq<ModuleLevel> {
        self.module_levels@
    }

    fn target(&self) -> (t: &str) {
        match &self.target {
            Some(t) => t.as_str(),
            None => {
                proof {
                    reveal_strlit("");
                }
                ""
            },
        }
    }

    fn max_level(&self) -> (l: LevelFilter) {
        self.max_level
    }

    fn module_level(&self) -> (m: &[ModuleLevel]) {
        self.module_levels.as_slice()
    }
}

} // verus!
