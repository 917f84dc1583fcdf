//! The error taxonomy shared by the library.
use vstd::prelude::*;

verus! {

/// Why an operation of the wallet core failed.
#[derive(Debug, Clone, PartialEq, Eq)]
pub enum WalletError {
    /// An input is out of shape: an oversized field, a wrong length, an arithmetic overflow.
    MalformedInput,
    /// The spending address is not a pay-to-public-key-hash address.
    UnsupportedAddressType,
    /// The selected funds cannot cover the fees.
    InsufficientFunds,
    /// The master seed is already set.
    AlreadyInitialized,
    /// Another initialization is waiting for entropy.
    AlreadyInitializing,
    /// An external collaborator failed, with its message.
    ExternalCallFailed(String),
}

impl WalletError {
    /// A short human-readable description.
    pub fn message(&self) -> (r: String)
        ensures
            self matches WalletError::ExternalCallFailed(m) ==> r@ == m@,
    {
        match self {
            WalletError::MalformedInput => String::from_str("malformed input"),
            WalletError::UnsupportedAddressType => String::from_str("unsupported address type"),
            WalletError::InsufficientFunds => String::from_str("insufficient funds"),
            WalletError::AlreadyInitialized => String::from_str("already initialized"),
            WalletError::AlreadyInitializing => String::from_str("already initializing"),
            WalletError::ExternalCallFailed(m) => m.clone(),
        }
    }
}

} // verus!
