//! The errors that the library reports to its callers.

use vstd::prelude::*;

verus! {

/// Why an operation of the library was refused.
#[derive(Debug, Clone)]
pub enum ReaderError {
    /// A file could not be opened, read or decoded, or a watch could not be
    /// installed; the text says what the operating system or the decoder said.
    IoError(String),
    /// The path carries no watch with the given identity.
    NotWatched,
    /// The subscription is not, or no longer, registered.
    NoSuchCert,
    /// No reader is registered for the path in the given mode.
    NoSuchReader,
    /// The reader of the path was made for another record type.
    TypeMismatch,
}

impl ReaderError {
    /// A short description for logs.
    pub fn message(&self) -> (text: String)
        ensures
            match *self {
                ReaderError::IoError(detail) => text@ == detail@,
                ReaderError::NotWatched => text@ == "path is not watched"@,
                ReaderError::NoSuchCert => text@ == "no such subscription"@,
                ReaderError::NoSuchReader => text@ == "no reader for this path"@,
                ReaderError::TypeMismatch => text@ == "reader was made for another record type"@,
            },
    {
        match self {
            ReaderError::IoError(detail) => detail.clone(),
            ReaderError::NotWatched => "path is not watched".to_string(),
            ReaderError::NoSuchCert => "no such subscription".to_string(),
            ReaderError::NoSuchReader => "no reader for this path".to_string(),
            ReaderError::TypeMismatch => "reader was made for another record type".to_string(),
        }
    }
}

} // verus!
