//! The error taxonomy of vault operations.

use vstd::prelude::*;

verus! {

/// Why a vault operation failed. Wrong key and tampered ciphertext are
/// deliberately one kind each, so that no call tells the two apart.
#[derive(Clone, Copy, Debug, PartialEq, Eq, Structural)]
pub enum VaultError {
    /// `init` on a path where a file already stands.
    VaultAlreadyExists,
    /// No vault file at the path.
    VaultNotFound,
    /// The file could not be read or written.
    IoFailure,
    /// The persisted structure or a sealed payload is not well formed.
    CorruptVault,
    /// The key-derivation function refused the costs, salt or password.
    InvalidParameters,
    /// A sealed record did not authenticate under the key.
    AuthenticationFailure,
    /// The master password does not open the verifier record.
    IncorrectPassword,
    /// No record under the requested service name.
    ServiceNotFound,
    /// A payload could not be sealed or serialized.
    EncryptionFailure,
}

} // verus!
