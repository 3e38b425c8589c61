//! Why a value could not be read or written.
use vstd::prelude::*;

verus! {

/// Why bytes do not hold the value that is read from them.
#[derive(Clone, Copy, Debug, PartialEq, Eq, Structural)]
pub enum DecodeError {
    /// The buffer ends this many bytes too early.
    More(usize),
    /// Text that is not UTF-8.
    InvalidString,
    /// A filter type that the protocol does not define.
    InvalidFilterType,
    /// A group order that the protocol does not define.
    InvalidGroupOrder,
    /// A length that the machine cannot hold.
    BoundsExceeded,
    /// One parameter given twice.
    DuplicateParameter,
    /// A field that the filter type asks for is not there.
    MissingField,
    /// A value out of its range.
    InvalidValue,
}

/// Why a value cannot be written.
#[derive(Clone, Copy, Debug, PartialEq, Eq, Structural)]
pub enum EncodeError {
    /// The buffer is this many bytes too small.
    More(usize),
    /// A number above the largest variable-length integer.
    BoundsExceeded,
    /// A field that the filter type asks for is not set.
    MissingField,
}

} // verus!
