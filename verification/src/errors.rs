//! Typed failure outcomes of the caching and search subsystem.
//!
//! No failure here terminates the process: every fallible step returns one of
//! these values, and a failed load is stored as a terminal outcome for its
//! key.

use vstd::prelude::*;

verus! {

/// A failure of an outbound network read.
#[derive(Clone, Copy, Debug, PartialEq, Eq, Structural)]
pub enum NetworkError {
    /// The remote host could not be reached.
    Unreachable,
    /// The request timed out.
    Timeout,
    /// The remote answered with a non-success status code.
    Status(u16),
}

/// A terminal failure outcome for a cached resource load.
#[derive(Clone, Copy, Debug, PartialEq, Eq, Structural)]
pub enum LoadError {
    /// The fetch itself failed.
    Network(NetworkError),
    /// The fetched bytes were malformed or in an unsupported encoding.
    Decode,
    /// Reading or writing the disk copy failed.
    Io,
}

/// A failure to resolve a search record to a usable image.
#[derive(Clone, Copy, Debug, PartialEq, Eq, Structural)]
pub enum VariantError {
    /// The record offers no image in the required format at the target scale.
    NoMatchingVariant,
}

} // verus!
