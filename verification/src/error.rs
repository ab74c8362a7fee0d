//! The ways in which a fetch can fail.

use vstd::prelude::*;

verus! {

/// Why a fetch yielded no data. Each variant carries the text with which the
/// operating system or the service described the failure.
#[derive(Debug, PartialEq, Eq)]
pub enum Error {
    /// No session with the management subsystem could be established.
    Connection(String),
    /// The management subsystem refused the query.
    Query(String),
    /// The registry key or value is missing or may not be read.
    RegistryAccess(String),
    /// The task-scheduling service could not be initialised or asked.
    TaskService(String),
}

impl Error {
    /// The description that the failing interface gave.
    pub open spec fn detail_text(&self) -> Seq<char> {
        match *self {
            Error::Connection(detail) => detail@,
            Error::Query(detail) => detail@,
            Error::RegistryAccess(detail) => detail@,
            Error::TaskService(detail) => detail@,
        }
    }

    /// The description that the failing interface gave.
    pub fn detail(&self) -> (text: &str)
        ensures
            text@ == self.detail_text(),
    {
        match self {
            Error::Connection(detail) => detail.as_str(),
            Error::Query(detail) => detail.as_str(),
            Error::RegistryAccess(detail) => detail.as_str(),
            Error::TaskService(detail) => detail.as_str(),
        }
    }
}

impl Clone for Error {
    fn clone(&self) -> (copy: Error)
        ensures
            copy == *self,
    {
        match self {
            Error::Connection(detail) => Error::Connection(detail.clone()),
            Error::Query(detail) => Error::Query(detail.clone()),
            Error::RegistryAccess(detail) => Error::RegistryAccess(detail.clone()),
            Error::TaskService(detail) => Error::TaskService(detail.clone()),
        }
    }
}

} // verus!
