//! The errors of the library, each with the text of its cause.
use vstd::prelude::*;

verus! {

#[derive(Debug)]
pub enum Error {
    SetLogger(String),
    LogKv(String),
    LockPoison(String),
    Io(String),
    Send(String),
}

impl Error {
    /// The text of the cause that the error carries.
    pub open spec fn text(&self) -> Seq<char> {
        match self {
            Error::SetLogger(e) => e@,
            Error::LogKv(e) => e@,
            Error::LockPoison(e) => e@,
            Error::Io(e) => e@,
            Error::Send(e) => e@,
        }
    }

    /// The error as it is displayed: the text of its cause.
    pub fn to_string(&self) -> (s: String)
        ensures
            s@ == self.text(),
    {
        match self {
            Error::SetLogger(e) => e.clone(),
            Error::LogKv(e) => e.clone(),
            Error::LockPoison(e) => e.clone(),
            Error::Io(e) => e.clone(),
            Error::Send(e) => e.clone(),
        }
    }
}

} // verus!
