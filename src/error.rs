use vstd::prelude::*;

verus! {

/// Why a registration was refused. Every refusal leaves the registry as it
/// was.
#[derive(Debug, Clone, Copy, PartialEq, Eq, Structural)]
pub enum RegistryError {
    /// A record already exists at the fingerprint's address.
    AlreadyRegistered,
    /// A text field does not fit its budget in the fixed record layout.
    FieldTooLarge,
    /// The declared submitter did not sign the transaction.
    UnauthorizedSigner,
    /// The submitter cannot pay for the record's storage.
    InsufficientFunds,
    /// No bump in 0..=255 gives a valid address for the fingerprint.
    AddressDerivationExhausted,
    /// The address supplied by the caller is not the one derived from the
    /// fingerprint.
    AddressMismatch,
}

} // verus!
