//! What can go wrong when an accounting file is read.

use vstd::prelude::*;

verus! {

/// Why a buffer was not read as an accounting file. Each of these ends the
/// whole read: no records are handed out beside an error.
#[derive(Debug, Clone, Copy, PartialEq, Eq, Structural)]
pub enum Error {
    /// The buffer's length is not a whole number of records.
    InvalidLength,
    /// A record's command name is not valid UTF-8.
    MalformedText,
    /// No user is known under a record's user id.
    UnknownUser,
}

pub type Result<T> = core::result::Result<T, Error>;

impl Error {
    /// The text that `message` gives for each error.
    pub open spec fn message_spec(self) -> Seq<char> {
        match self {
            Error::InvalidLength => "Invalid file"@,
            Error::MalformedText => "Invalid data"@,
            Error::UnknownUser => "Unknown user"@,
        }
    }

    /// A short description of the error, for display.
    pub fn message(&self) -> (text: String)
        ensures
            text@ == self.message_spec(),
    {
        match self {
            Error::InvalidLength => "Invalid file".to_owned(),
            Error::MalformedText => "Invalid data".to_owned(),
            Error::UnknownUser => "Unknown user".to_owned(),
        }
    }
}

} // verus!
