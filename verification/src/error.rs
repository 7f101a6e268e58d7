//! The failures that the engine reports to its caller.

use vstd::prelude::*;

verus! {

/// Why a discovery or reconciliation request could not be carried out.
#[derive(Clone, Copy, Debug, PartialEq, Eq, Structural)]
pub enum EngineError {
    /// The user's configuration root is unknown, so the user scope has no
    /// directory.
    ConfigDirUnavailable,
    /// The user's home directory is unknown, so a sandboxed process cannot
    /// name the per-user application directories.
    HomeDirUnavailable,
    /// A probe, write, copy, link or removal on the file system failed.
    IoFailure,
    /// The decoder rejected a descriptor file.
    ParseFailure,
    /// The path has no final component to name a file by.
    InvalidPath,
}

impl EngineError {
    /// A short description for the user.
    pub fn message(&self) -> (r: &'static str)
        ensures
            r@ == match *self {
                EngineError::ConfigDirUnavailable => "config dir not found"@,
                EngineError::HomeDirUnavailable => "home dir not found"@,
                EngineError::IoFailure => "file system operation failed"@,
                EngineError::ParseFailure => "descriptor file is malformed"@,
                EngineError::InvalidPath => "path names no file"@,
            },
    {
        match self {
            EngineError::ConfigDirUnavailable => "config dir not found",
            EngineError::HomeDirUnavailable => "home dir not found",
            EngineError::IoFailure => "file system operation failed",
            EngineError::ParseFailure => "descriptor file is malformed",
            EngineError::InvalidPath => "path names no file",
        }
    }
}

} // verus!
