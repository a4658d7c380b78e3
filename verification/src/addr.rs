//! Account identifiers.
//!
//! An account or contract is named by a 160-bit identifier, stored as a high
//! 32-bit part and a low 128-bit part. The all-zero identifier is the
//! sentinel that stands for "no account"; the registry treats it as absent.

use vstd::prelude::*;

verus! {

/// A 160-bit account identifier.
#[derive(Clone, Copy, PartialEq, Eq, Structural, Debug)]
pub struct Addr {
    /// The high 32 bits of the identifier.
    pub hi: u32,
    /// The low 128 bits of the identifier.
    pub lo: u128,
}

impl Addr {
    /// Whether this is the zero sentinel.
    pub open spec fn spec_is_zero(self) -> bool {
        self.hi == 0 && self.lo == 0
    }

    /// The zero sentinel.
    pub fn zero() -> (r: Addr)
        ensures
            r.spec_is_zero(),
            r == (Addr { hi: 0, lo: 0 }),
    {
        Addr { hi: 0, lo: 0 }
    }

    /// Whether this is the zero sentinel.
    pub fn is_zero(&self) -> (r: bool)
        ensures
            r == self.spec_is_zero(),
    {
        self.hi == 0 && self.lo == 0
    }

    /// A small identifier, convenient for hosts that number accounts.
    pub fn from_u64(v: u64) -> (r: Addr)
        ensures
            r == (Addr { hi: 0, lo: v as u128 }),
            r.spec_is_zero() <==> v == 0,
    {
        Addr { hi: 0, lo: v as u128 }
    }
}

} // verus!
