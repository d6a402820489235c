//! The ways in which serializing a build graph can fail.

use vstd::prelude::*;

verus! {

/// Why a serialization pass was aborted.
#[derive(Clone, Copy, Debug, PartialEq, Eq, Structural)]
pub enum Error {
    /// A string field is too long to be represented in the wire format.
    Encoding,
    /// An output handle refers to an operation that does not exist, or that
    /// was not constructed before the operation that consumes it.
    Dependency,
    /// An output handle refers to an output slot that its operation does not
    /// declare.
    Index,
}

} // verus!
