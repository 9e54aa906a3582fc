use vstd::prelude::*;

verus! {

/// The kinds of recoverable failure the primitives report.
///
/// Every operation that can fail returns one of these; none aborts the
/// process. Human-readable messages go to an external error sink that is
/// outside this crate's scope.
#[derive(Clone, Copy, Debug, PartialEq, Eq, Structural)]
pub enum GitError {
    /// An allocation could not be made, or a size computation overflowed.
    OutOfMemory,
    /// A caller contract was violated in a recoverable way, notably an
    /// attempt to grow a borrowed buffer.
    InvalidArgument,
    /// Malformed identifier input: empty, too long, non-hex characters, or a
    /// header/terminator mismatch during structured parsing.
    InvalidFormat,
}

} // verus!
