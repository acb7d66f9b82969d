use vstd::prelude::*;

verus! {

/// Why a documentation request could not be served.
///
/// Each variant aborts the current generation request as a whole.
#[derive(Debug, PartialEq, Eq)]
pub enum DocError {
    /// A file asked for is not part of the descriptor set.
    FileNotFound(String),
    /// A file asked for carries no comment table.
    MissingSourceInfo,
    /// A method's input or output type is not in the type index.
    UnresolvedTypeReference(String),
    /// A type reference cannot be split into package and name.
    MalformedTypeReference(String),
}

} // verus!
