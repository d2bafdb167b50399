use vstd::prelude::*;

verus! {

/// Severity of a log record, from the most severe (`Error`) to the most
/// verbose (`Trace`).
#[derive(Clone, Copy, Debug, PartialEq, Eq, Structural, Hash)]
pub enum Level {
    Error,
    Warn,
    Info,
    Debug,
    Trace,
}

/// A verbosity limit: `Off` lets nothing through, `Trace` lets everything
/// through.
#[derive(Clone, Copy, Debug, PartialEq, Eq, Structural, Hash)]
pub enum LevelFilter {
    Off,
    Error,
    Warn,
    Info,
    Debug,
    Trace,
}

impl Level {
    /// The verbosity rank of a level: 1 for `Error` up to 5 for `Trace`.
    pub open spec fn rank(self) -> nat {
        match self {
            Level::Error => 1,
            Level::Warn => 2,
            Level::Info => 3,
            Level::Debug => 4,
            Level::Trace => 5,
        }
    }

    /// The upper-case name under which a level is displayed.
    pub open spec fn name(self) -> Seq<char> {
        match self {
            Level::Error => "ERROR"@,
            Level::Warn => "WARN"@,
            Level::Info => "INFO"@,
            Level::Debug => "DEBUG"@,
            Level::Trace => "TRACE"@,
        }
    }

    /// The filter that lets exactly this level and the more severe ones through.
    pub fn to_level_filter(&self) -> (f: LevelFilter)
        ensures
            f.rank() == self.rank(),
    {
        match self {
            Level::Error => LevelFilter::Error,
            Level::Warn => LevelFilter::Warn,
            Level::Info => LevelFilter::Info,
            Level::Debug => LevelFilter::Debug,
            Level::Trace => LevelFilter::Trace,
        }
    }

    /// The name of the level, as it is displayed.
    pub fn as_str(&self) -> (s: &'static str)
        ensures
            s@ == self.name(),
    {
        match self {
            Level::Error => "ERROR",
            Level::Warn => "WARN",
            Level::Info => "INFO",
            Level::Debug => "DEBUG",
            Level::Trace => "TRACE",
        }
    }
}

impl LevelFilter {
    /// The verbosity rank of a filter: 0 for `Off` up to 5 for `Trace`.
    pub open spec fn rank(self) -> nat {
        match self {
            LevelFilter::Off => 0,
            LevelFilter::Error => 1,
            LevelFilter::Warn => 2,
            LevelFilter::Info => 3,
            LevelFilter::Debug => 4,
            LevelFilter::Trace => 5,
        }
    }

    /// The most verbose level that this filter lets through; `None` for `Off`.
    pub fn to_level(&self) -> (l: Option<Level>)
        ensures
            l is None <==> self.rank() == 0,
            l matches Some(level) ==> level.rank() == self.rank(),
    {
        match self {
            LevelFilter::Off => None,
            LevelFilter::Error => Some(Level::Error),
            LevelFilter::Warn => Some(Level::Warn),
            LevelFilter::Info => Some(Level::Info),
            LevelFilter::Debug => Some(Level::Debug),
            LevelFilter::Trace => Some(Level::Trace),
        }
    }

    /// The verbosity rank as a number.
    pub fn rank_value(&self) -> (r: u8)
        ensures
            r == self.rank(),
    {
        match self {
            LevelFilter::Off => 0,
            LevelFilter::Error => 1,
            LevelFilter::Warn => 2,
            LevelFilter::Info => 3,
            LevelFilter::Debug => 4,
            LevelFilter::Trace => 5,
        }
    }
}

/// Whether a record of `level` passes the verbosity limit `filter`.
pub open spec fn level_passes(level: Level, filter: LevelFilter) -> bool {
    level.rank() <= filter.rank()
}

/// Decides whether a record of `level` passes the verbosity limit `filter`.
pub fn passes(level: Level, filter: LevelFilter) -> (b: bool)
    ensures
        b == level_passes(level, filter),
        b == (level.rank() <= filter.rank()),
{
    let f = level.to_level_filter();
    f.rank_value() <= filter.rank_value()
}

/// Levels run from the most severe to the most verbose, and filters from
/// `Off` to `Trace`, in the order in which they are declared; each level
/// has the rank of the filter of the same name.
pub proof fn lemma_level_order()
    ensures
        Level::Error.rank() < Level::Warn.rank(),
        Level::Warn.rank() < Level::Info.rank(),
        Level::Info.rank() < Level::Debug.rank(),
        Level::Debug.rank() < Level::Trace.rank(),
        LevelFilter::Off.rank() < LevelFilter::Error.rank(),
        LevelFilter::Error.rank() < LevelFilter::Warn.rank(),
        LevelFilter::Warn.rank() < LevelFilter::Info.rank(),
        LevelFilter::Info.rank() < LevelFilter::Debug.rank(),
        LevelFilter::Debug.rank() < LevelFilter::Trace.rank(),
        Level::Error.rank() == LevelFilter::Error.rank(),
        Level::Warn.rank() == LevelFilter::Warn.rank(),
        Level::Info.rank() == LevelFilter::Info.rank(),
        Level::Debug.rank() == LevelFilter::Debug.rank(),
        Level::Trace.rank() == LevelFilter::Trace.rank(),
{
}

/// A record passes a verbosity limit exactly when its level is no more
/// verbose than the limit: every level passes the limit of its own name and
/// every more verbose limit, `Trace` lets every level through, `Off` none,
/// and no level passes a limit that is more severe than it.
pub proof fn lemma_level_passes_limit(level: Level, filter: LevelFilter)
    ensures
        level_passes(level, filter) <==> level.rank() <= filter.rank(),
        level_passes(level, LevelFilter::Trace),
        !level_passes(level, LevelFilter::Off),
        level_passes(Level::Error, LevelFilter::Error),
        level_passes(Level::Warn, LevelFilter::Warn),
        level_passes(Level::Info, LevelFilter::Info),
        level_passes(Level::Debug, LevelFilter::Debug),
        level_passes(Level::Trace, LevelFilter::Trace),
        !level_passes(Level::Warn, LevelFilter::Error),
        !level_passes(Level::Info, LevelFilter::Warn),
        !level_passes(Level::Debug, LevelFilter::Info),
        !level_passes(Level::Trace, LevelFilter::Debug),
{
}

/// Letting a record through is monotone: a level that passes a limit passes
/// every more verbose limit, and every more severe level passes it too.
pub proof fn lemma_level_passes_monotone(level: Level, other: Level, filter: LevelFilter, wider: LevelFilter)
    requires
        level_passes(level, filter),
    ensures
        filter.rank() <= wider.rank() ==> level_passes(level, wider),
        other.rank() <= level.rank() ==> level_passes(other, filter),
{
}

} // verus!
