//! The ways in which decoding fails.

use vstd::prelude::*;

verus! {

/// Why a byte buffer could not be decoded.
#[derive(Debug, Clone, Copy, PartialEq, Eq)]
pub enum TdfError {
    /// The input ends before the end of a field. `offset` is the position in
    /// the input at which that field starts.
    TruncatedInput { offset: usize },
    /// A byte of the signature differs from the one expected.
    MagicMismatch,
    /// A block type outside the known ones. `entry` is the position of the
    /// record among those being decoded (0 for a record or a value decoded on
    /// its own), `value` the discriminant found.
    InvalidDiscriminant { entry: usize, value: u32 },
    /// The header declares a negative number of entries.
    NegativeEntryCount { count: i32 },
}

impl TdfError {
    /// The error with `entry` as the position of the offending record.
    pub open spec fn spec_with_entry(self, entry: usize) -> TdfError {
        match self {
            TdfError::InvalidDiscriminant { entry: _, value } => TdfError::InvalidDiscriminant {
                entry,
                value,
            },
            other => other,
        }
    }

    /// Records that the error arose in the record at position `entry`.
    #[verifier::when_used_as_spec(spec_with_entry)]
    pub fn with_entry(self, entry: usize) -> (r: TdfError)
        ensures
            r == self.spec_with_entry(entry),
    {
        match self {
            TdfError::InvalidDiscriminant { entry: _, value } => TdfError::InvalidDiscriminant {
                entry,
                value,
            },
            other => other,
        }
    }
}

} // verus!
