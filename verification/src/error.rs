use vstd::prelude::*;

verus! {

/// Why an operation of this crate can fail.
///
/// Every fallible operation returns one of these explicitly; nothing in the
/// crate panics.
#[derive(Clone, Copy, Debug, PartialEq, Eq, Structural)]
pub enum NgxError {
    /// The arena could not satisfy a size request. The structure that asked
    /// is left in its last valid state.
    AllocationFailed,
    /// A byte view does not decode as well-formed UTF-8. Surfaced only by the
    /// strict string conversions; the lossy variants never produce it.
    InvalidUtf8,
}

} // verus!
