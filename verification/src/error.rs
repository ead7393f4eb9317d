//! Ways in which an operation of the vault is refused.

use vstd::prelude::*;

verus! {

/// Why an operation did not take place.
#[derive(Clone, Copy, Debug, PartialEq, Eq, Structural)]
pub enum VaultError {
    /// The password is empty, so no key can be derived from it.
    InvalidPassword,
    /// The store could not be opened with the key: a wrong password and a
    /// damaged store are deliberately not told apart.
    AuthenticationFailed,
    /// A category, or a subcategory within its category, of that name
    /// exists already.
    DuplicateName,
    /// The category or subcategory referred to does not exist.
    NotFound,
    /// Writing the store failed.
    IoError,
    /// The operation is not allowed in the current state, or was handed a
    /// value that no state allows.
    InvariantViolation,
}

} // verus!
