use vstd::prelude::*;

verus! {

/// Why a marshaling call rejected its input.
///
/// A batch call never returns partial results: the first reason found for
/// rejecting any entry is reported for the whole call.
#[derive(Clone, Copy, Debug, PartialEq, Eq, Structural)]
pub enum MarshalError {
    /// The foreign descriptor array pointer was null while its declared
    /// length was nonzero: a precondition violation, reported before any
    /// decoding is attempted.
    NullPointer,
    /// A string field of a descriptor was not valid UTF-8.
    InvalidUtf8,
    /// A path that must be non-empty was empty.
    EmptyPath,
    /// A serialized byte-range list did not consist of whole records.
    MalformedRangeList,
}

} // verus!
