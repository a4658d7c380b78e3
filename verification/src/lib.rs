//! Core of a small token ecosystem: a fungible-token ledger with balance and
//! allowance bookkeeping, a registry of deployed tokens, and a factory that
//! coordinates the two. All state lives in explicit owned structs; the
//! surrounding host supplies caller identities and consumes emitted events.

pub mod addr;
pub mod amount;
pub mod bytes;
pub mod errors;
pub mod events;
pub mod factory;
pub mod governance;
pub mod ledger;
pub mod registry;
