//! What can go wrong, with a message for each.

use vstd::prelude::*;

use crate::text::concat;

verus! {

#[derive(Debug)]
pub enum Error {
    Config(String),
    Path(String),
    Lockfile(String),
    Auth(String),
}

impl Error {
    /// The text that is shown for an error.
    pub open spec fn shown(self) -> Seq<char> {
        match self {
            Error::Config(text) => "config error: "@ + text@,
            Error::Path(text) => "path resolution error: "@ + text@,
            Error::Lockfile(text) => "malformed lockfile: "@ + text@,
            Error::Auth(text) => "auth error: "@ + text@,
        }
    }

    /// The text that is shown for the error.
    pub fn message(&self) -> (text: String)
        ensures
            text@ == self.shown(),
    {
        match self {
            Error::Config(text) => concat("config error: ", text.as_str()),
            Error::Path(text) => concat("path resolution error: ", text.as_str()),
            Error::Lockfile(text) => concat("malformed lockfile: ", text.as_str()),
            Error::Auth(text) => concat("auth error: ", text.as_str()),
        }
    }
}

/// An error is shown by what it is about and then by its own text.
pub proof fn errors_are_shown_with_their_text(text: String)
    ensures
        Error::Config(text).shown() == "config error: "@ + text@,
        Error::Path(text).shown() == "path resolution error: "@ + text@,
        Error::Lockfile(text).shown() == "malformed lockfile: "@ + text@,
        Error::Auth(text).shown() == "auth error: "@ + text@,
{
}

} // verus!
