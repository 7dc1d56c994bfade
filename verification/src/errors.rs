//! The error taxonomy: per-document failures (I/O, decoding, a directory
//! path, a short read), construction-time pattern failures, runtime scan
//! failures, and a declined overwrite owned by the output layer.

use vstd::prelude::*;

verus! {

/// What can go wrong while a document is opened, read, decoded, scanned,
/// or its results written out.
#[derive(Clone, Copy, Debug, PartialEq, Eq, Structural)]
pub enum Error {
    /// The byte stream could not be read.
    Io,
    /// A chunk held an invalid byte sequence.
    Utf8Conversion,
    /// The path names a directory, which is never opened.
    IsADirectory,
    /// An extraction pattern failed to compile; fatal before any document.
    Pattern,
    /// The pattern engine gave up while scanning a chunk.
    Scan,
    /// Fewer bytes were available than a required read asked for.
    BadRead,
    /// The user declined to overwrite an existing output file.
    UserChoice,
}

} // verus!
