//! Error kinds of the core.
//!
//! Every failure aborts the whole call with no partial state change and is
//! reported as one of these typed kinds; the core never signals an error by
//! panicking or by silent wraparound.

use vstd::prelude::*;

verus! {

/// Failures of ledger operations.
#[derive(Clone, Copy, PartialEq, Eq, Structural, Debug)]
pub enum TokenError {
    /// A read or write was attempted before the one-time initialization.
    NotInitialized,
    /// A second initialization was attempted on the same ledger.
    AlreadyInitialized,
    /// A debit would exceed the payer's balance.
    InsufficientBalance,
    /// A delegated debit would exceed the spender's remaining allowance.
    InsufficientAllowance,
}

/// Failures of registry operations.
#[derive(Clone, Copy, PartialEq, Eq, Structural, Debug)]
pub enum RegistryError {
    /// The address is not registered.
    NotFound,
    /// The address is already registered; an address is registered at most once.
    AlreadyRegistered,
    /// The zero sentinel stands for "no token" and cannot be registered.
    ZeroAddress,
}

/// Failures of token creation through the factory.
#[derive(Clone, Copy, PartialEq, Eq, Structural, Debug)]
pub enum FactoryError {
    /// The requested decimals make the computed supply exceed 256 bits.
    SupplyOverflow,
    /// The registry would refuse this address, so nothing was initialized.
    RegistrationRefused,
    /// The target ledger was already initialized.
    InitializationFailed,
}

} // verus!
