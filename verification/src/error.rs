//! The ways a read can fail.

use vstd::prelude::*;
use vstd::string::StringExecFns;

verus! {

/// Why an operation of the engine did not produce a value.
#[derive(Clone, Copy, Debug, PartialEq, Eq, Structural)]
pub enum EngineError {
    /// The magic bytes are wrong, or the header cannot be parsed.
    Format,
    /// A record index at or beyond the record count.
    OutOfRange,
    /// The file system failed.
    Io,
    /// Bytes that cannot be decoded as what they are declared to be.
    Decode,
    /// No table of that name is known.
    NotFound,
    /// A write was asked of an engine in read-only mode.
    ReadOnly,
    /// A write was asked of an engine that has no write path.
    NotImplemented,
}

impl EngineError {
    /// A short description for logs and replies.
    pub fn message(&self) -> (text: String)
        ensures
            text@ == (match *self {
                EngineError::Format => "invalid or unreadable file header"@,
                EngineError::OutOfRange => "record index out of range"@,
                EngineError::Io => "file system failure"@,
                EngineError::Decode => "data cannot be decoded"@,
                EngineError::NotFound => "table not found"@,
                EngineError::ReadOnly => "read-only mode is enabled"@,
                EngineError::NotImplemented => "writing is not implemented"@,
            }),
    {
        match self {
            EngineError::Format => String::from_str("invalid or unreadable file header"),
            EngineError::OutOfRange => String::from_str("record index out of range"),
            EngineError::Io => String::from_str("file system failure"),
            EngineError::Decode => String::from_str("data cannot be decoded"),
            EngineError::NotFound => String::from_str("table not found"),
            EngineError::ReadOnly => String::from_str("read-only mode is enabled"),
            EngineError::NotImplemented => String::from_str("writing is not implemented"),
        }
    }
}

} // verus!
