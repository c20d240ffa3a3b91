//! The ways in which a storage operation can fail.

use vstd::prelude::*;

verus! {

/// Why a storage operation did not succeed.
#[derive(Clone, Copy, Debug, PartialEq, Eq, Structural)]
pub enum StoreError {
    /// The identifier names no record of the table.
    NotFound,
    /// A freshly generated identifier does not fit the session-key format.
    KeyEncoding,
    /// The lock that guards the table is poisoned.
    StoreUnavailable,
}

impl StoreError {
    /// The text that `message` gives for this error.
    pub open spec fn message_text(self) -> Seq<char> {
        match self {
            StoreError::NotFound => "Session key not found"@,
            StoreError::KeyEncoding => "Session key cannot be encoded"@,
            StoreError::StoreUnavailable => "Session store is unavailable"@,
        }
    }

    /// A sentence for the log or for the caller's own error type.
    pub fn message(&self) -> (text: String)
        ensures
            text@ == self.message_text(),
    {
        match self {
            StoreError::NotFound => "Session key not found".to_owned(),
            StoreError::KeyEncoding => "Session key cannot be encoded".to_owned(),
            StoreError::StoreUnavailable => "Session store is unavailable".to_owned(),
        }
    }
}

} // verus!
