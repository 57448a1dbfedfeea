//! The failure kinds a package build can surface.

use vstd::prelude::*;

verus! {

/// Every internal failure of a package write is wrapped into one of these
/// kinds and returned to the caller immediately; nothing is retried or
/// swallowed.  Any error means the output target must not be treated as a
/// valid package.
#[derive(Debug)]
pub enum PkgError {
    /// A media path string cannot be parsed as a file path, or no base file
    /// name can be extracted from it.
    PathFormat,
    /// An operating-system I/O failure: creating or reading the scratch
    /// snapshot file, or writing bytes into the archive's output target.
    Io(String),
    /// A failure of the embedded relational store: schema execution, row
    /// insertion, transaction commit, or exhaustion of the identifier space.
    Database(String),
    /// A failure while opening archive members or finalizing the archive.
    Archive(String),
    /// The media manifest could not be serialized to its textual form.
    Encoding(String),
}

} // verus!
