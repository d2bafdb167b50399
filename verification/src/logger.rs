//! The logger that dispatches records to its appenders, and the handle that
//! closes them.
use std::sync::Arc;
use vstd::prelude::*;
use crate::level::LevelFilter;

verus! {

/// A logger: a verbosity limit and the appenders that records go to, in the
/// order in which they were added.
pub struct RemoteLogger<A> {
    max_level: LevelFilter,
    appenders: Vec<A>,
}

impl<A> RemoteLogger<A> {
    pub closed spec fn spec_max_level(&self) -> LevelFilter {
        self.max_level
    }

    pub closed spec fn spec_appenders(&self) -> Seq<A> {
        self.appenders@
    }

    /// A logger with the verbosity limit `Trace` and no appenders.
    pub fn new() -> (l: RemoteLogger<A>)
        ensures
            l.spec_max_level() == LevelFilter::Trace,
            l.spec_appenders() == Seq::<A>::empty(),
    {
        RemoteLogger { max_level: LevelFilter::Trace, appenders: Vec::new() }
    }

    /// Adds an appender after the ones the logger has.
    pub fn with_appender(self, appender: A) -> (l: RemoteLogger<A>)
        ensures
            l.spec_max_level() == self.spec_max_level(),
            l.spec_appenders() == self.spec_appenders().push(appender),
    {
        let RemoteLogger { max_level, mut appenders } = self;
        appenders.push(appender);
        RemoteLogger { max_level, appenders }
    }

    pub fn with_max_level(self, level: LevelFilter) -> (l: RemoteLogger<A>)
        ensures
            l.spec_max_level() == level,
            l.spec_appenders() == self.spec_appenders(),
    {
        let RemoteLogger { max_level: _, appenders } = self;
        RemoteLogger { max_level: level, appenders }
    }

    pub fn max_level(&self) -> (l: LevelFilter)
        ensures
            l == self.spec_max_level(),
    {
        self.max_level
    }

    pub fn appenders(&self) -> (a: &[A])
        ensures
            a@ == self.spec_appenders(),
    {
        self.appenders.as_slice()
    }

    /// Prepares the logger for installation: its verbosity limit, its
    /// appenders, now shared, and the handle that shares them too.
    pub fn init(self) -> (parts: (LevelFilter, Arc<Vec<A>>, LoggerHandle<A>))
        ensures
            parts.0 == self.spec_max_level(),
            parts.1@ == self.spec_appenders(),
            parts.2.spec_appenders() == self.spec_appenders(),
    {
        let RemoteLogger { max_level, appenders } = self;
        let shared = Arc::new(appenders);
        let handle = LoggerHandle::new(shared.clone());
        (max_level, shared, handle)
    }
}

impl<A> Default for RemoteLogger<A> {
    fn default() -> (l: RemoteLogger<A>)
        ensures
            l.spec_max_level() == LevelFilter::Trace,
            l.spec_appenders() == Seq::<A>::empty(),
    {
        RemoteLogger::new()
    }
}

/// The handle through which the appenders of an installed logger are closed,
/// which sends the messages that they still hold.
pub struct LoggerHandle<A> {
    appenders: Arc<Vec<A>>,
}

impl<A> LoggerHandle<A> {
    pub closed spec fn spec_appenders(&self) -> Seq<A> {
        self.appenders@
    }

    pub fn new(appenders: Arc<Vec<A>>) -> (h: LoggerHandle<A>)
        ensures
            h.spec_appenders() == appenders@,
    {
        LoggerHandle { appenders }
    }

    pub fn appenders(&self) -> (a: &[A])
        ensures
            a@ == self.spec_appenders(),
    {
        self.appenders.as_slice()
    }
}

} // verus!
