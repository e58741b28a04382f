//! The closed set of failures that a store operation can report.

use vstd::prelude::*;

verus! {

/// Why a store operation did not succeed.
#[derive(Debug, Clone, Copy, PartialEq, Eq, Structural)]
pub enum StoreError {
    /// The store could not be reached, or did not answer in time.
    Unavailable,
    /// The store answered, and refused the command.
    Rejected,
    /// A stored entry or a reply does not have the expected form.
    Decode,
}

impl StoreError {
    /// A short description, for logs.
    pub fn describe(&self) -> (text: &'static str)
        ensures
            text@ == match *self {
                StoreError::Unavailable => "store unavailable"@,
                StoreError::Rejected => "command rejected by the store"@,
                StoreError::Decode => "malformed entry"@,
            },
    {
        match self {
            StoreError::Unavailable => "store unavailable",
            StoreError::Rejected => "command rejected by the store",
            StoreError::Decode => "malformed entry",
        }
    }
}

} // verus!
