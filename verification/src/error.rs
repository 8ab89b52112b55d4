//! Failure values reported by the decoder and by the reflective views.

use vstd::prelude::*;

verus! {

/// Why decoding a text against a descriptor failed.
#[derive(Clone, Copy, Debug, PartialEq, Eq, Structural)]
pub enum DecodeError {
    /// The text ended although more input was expected.
    UnexpectedEnd,
    /// The text at the cursor does not match the expected literal or structure.
    Malformed,
    /// A tagged union names a variant, or a plain enumeration holds a
    /// discriminant, that the descriptor does not declare.
    UnknownVariant,
    /// A number does not fit the described integer width.
    OutOfRange,
    /// The operation touches a container that is marked to be skipped.
    NotSupported,
}

/// Why an operation on a reflective view or a dispatch table failed.
#[derive(Clone, Copy, Debug, PartialEq, Eq, Structural)]
pub enum ReflectError {
    /// The container is marked to be skipped, or the leaf is read-only.
    NotSupported,
    /// The index lies outside the container.
    OutOfBounds,
    /// The value does not have the shape that the descriptor gives.
    Mismatch,
}

} // verus!
