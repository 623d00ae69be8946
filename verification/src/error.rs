//! The ways a run can fail.

use vstd::prelude::*;

verus! {

/// Why the start-up configuration was refused.
#[derive(Clone, Copy, Debug, PartialEq, Eq, Structural)]
pub enum ConfigError {
    /// The arguments name no modpack directory.
    MissingArgument,
    /// No API key was given.
    MissingCredential,
    /// The API key cannot be sent as a header value.
    InvalidCredential,
}

/// Why the catalog gave no file identifier.
#[derive(Clone, Copy, Debug, PartialEq, Eq, Structural)]
pub enum LookupError {
    /// The catalog ended without a record of that filename.
    NotFound,
    /// A page of the catalog could not be fetched or decoded.
    PageFailed,
}

/// A failure of a run.
#[derive(Clone, Copy, Debug, PartialEq, Eq, Structural)]
pub enum SyncError {
    /// The start-up arguments or the credential are missing or invalid.
    Config(ConfigError),
    /// The manifest is unreadable or malformed.
    Manifest,
    /// The target directory cannot be created or listed.
    Directory,
    /// A file's identifier could not be resolved.
    Lookup(LookupError),
    /// A file could not be transferred or written.
    Download,
}

impl SyncError {
    /// A fatal error ends the run; any other is confined to one manifest
    /// entry.
    pub open spec fn fatal(self) -> bool {
        self is Config || self is Manifest || self is Directory
    }

    /// Whether the error ends the run.
    pub fn is_fatal(&self) -> (fatal: bool)
        ensures
            fatal == self.fatal(),
    {
        match self {
            SyncError::Config(_) => true,
            SyncError::Manifest => true,
            SyncError::Directory => true,
            SyncError::Lookup(_) => false,
            SyncError::Download => false,
        }
    }
}

} // verus!
