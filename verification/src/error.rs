use vstd::prelude::*;

verus! {

/// The ways a read can fail.
///
/// Every failure is returned to the caller as a distinct, inspectable kind;
/// nothing is recovered locally and no partial record is ever returned.
#[derive(Clone, Copy, Debug, PartialEq, Eq, Structural)]
pub enum DbError {
    /// A well-formed key is absent from the store.
    NotFound,
    /// Fetched bytes are not valid RLP for the expected shape.
    Decode,
    /// Bytes parse as RLP but violate a structural invariant of the schema
    /// (wrong hash length, unconsumed or short receipt payload).
    Integrity,
}

} // verus!
