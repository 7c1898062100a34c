//! Errors of the library.

use vstd::prelude::*;

verus! {

/// What can go wrong while registering fonts or assembling a document.
#[derive(Debug, Clone, Copy, PartialEq, Eq, Structural)]
pub enum Error {
    /// An input stream could not be read to its end.
    Io,
    /// A font program could not be parsed, has no PostScript name, or lacks
    /// the metrics that embedding needs.
    FontDecode,
    /// The object store ran out of object numbers.
    Allocation,
}

} // verus!
