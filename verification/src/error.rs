//! The error taxonomy shared by every component: server-side dispatch
//! failures, client-side precondition failures, endpoint directory faults,
//! transport faults, text decoding faults and marshaling faults.

use vstd::prelude::*;

verus! {

/// One error kind per failure class. Each variant carries a short
/// human-readable description.
#[derive(Debug)]
pub enum Error {
    /// A dispatch or runtime failure on the server side.
    Server(String),
    /// A client-side precondition was not met (missing socket, no live server).
    Client(String),
    /// The endpoint directory is invalid, contended or corrupt.
    ProcessDirectory(String),
    /// An underlying transport failure.
    Io(String),
    /// An argument or return value could not be marshaled.
    Serialize(String),
}

impl Error {
    /// The description carried by the error.
    pub fn message(&self) -> (r: &String)
        ensures
            r@ == self.spec_message(),
    {
        match self {
            Error::Server(m) => m,
            Error::Client(m) => m,
            Error::ProcessDirectory(m) => m,
            Error::Io(m) => m,
            Error::Serialize(m) => m,
        }
    }

    /// The description carried by the error, as a sequence of characters.
    pub open spec fn spec_message(&self) -> Seq<char> {
        match self {
            Error::Server(m) => m@,
            Error::Client(m) => m@,
            Error::ProcessDirectory(m) => m@,
            Error::Io(m) => m@,
            Error::Serialize(m) => m@,
        }
    }
}

} // verus!
