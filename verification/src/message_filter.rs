//! The filter through which an appender lets records before its own checks.
use vstd::prelude::*;
use crate::record::Record;

verus! {

/// A filter that users implement to choose the records that an appender
/// passes on.
pub trait MessageFilter: Send + Sync + 'static {
    /// Returns `true` for records to be appended.
    fn filter_message(&self, record: &Record) -> bool;
}

/// The filter that lets every record through.
pub struct DefaultMessageFilter;

impl MessageFilter for DefaultMessageFilter {
    fn filter_message(&self, record: &Record) -> (b: bool)
        ensures
            b,
    {
        true
    }
}

} // verus!

verus! {

/// `verdict` is an answer that `filter` may give for `record`, as far as its
/// contract says.
pub open spec fn filter_gives<M: MessageFilter>(filter: &M, record: &Record, verdict: bool) -> bool {
    call_ensures(M::filter_message, (filter, record), verdict)
}

} // verus!
