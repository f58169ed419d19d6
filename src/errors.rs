//! Errors met while fetching ticker data for one pair.
use vstd::prelude::*;
use vstd::string::*;

verus! {

/// Common result type of remote access.
pub type ClientResult<T> = Result<T, Error>;

/// Errors from library code.
#[derive(Debug, Clone)]
pub enum Error {
    /// Can't connect to remote host.
    Connect(String),
    /// Response contains business error.
    IncorrectResponse(String),
    /// Can't fetch data.
    FetchFailed(String),
}

/// The text that describes an error.
pub open spec fn error_text(e: Error) -> Seq<char> {
    match e {
        Error::Connect(m) => "Connect is failed: "@ + m@,
        Error::IncorrectResponse(m) => "Response with error: "@ + m@,
        Error::FetchFailed(m) => "Fetching is failed: "@ + m@,
    }
}

impl Error {
    /// A readable description of the error.
    pub fn message(&self) -> (r: String)
        ensures
            r@ == error_text(*self),
    {
        let mut r = String::new();
        match self {
            Error::Connect(m) => {
                r.append("Connect is failed: ");
                r.append(m.as_str());
            },
            Error::IncorrectResponse(m) => {
                r.append("Response with error: ");
                r.append(m.as_str());
            },
            Error::FetchFailed(m) => {
                r.append("Fetching is failed: ");
                r.append(m.as_str());
            },
        }
        r
    }
}

} // verus!
