//! Unsigned 256-bit amounts with checked arithmetic.
//!
//! Every balance, allowance and supply in the ledger is an `Amount`: four
//! 64-bit limbs, least significant first. Addition, subtraction and
//! multiplication by a small factor are checked: underflow and overflow are
//! reported, never wrapped silently.

use vstd::prelude::*;

verus! {

/// 2^64, the weight of one limb.
pub open spec fn pow64() -> int {
    0x10000000000000000int
}

/// 2^128, the weight of the third limb.
pub open spec fn pow128() -> int {
    0x100000000000000000000000000000000int
}

/// 2^192, the weight of the fourth limb.
pub open spec fn pow192() -> int {
    0x1000000000000000000000000000000000000000000000000int
}

/// 2^256, one past the largest representable amount.
pub open spec fn pow256() -> int {
    0x10000000000000000000000000000000000000000000000000000000000000000int
}

/// 2^64 as an executable divisor for carry extraction.
const LIMB_BASE: u128 = 0x10000000000000000;

/// An unsigned 256-bit amount: four 64-bit limbs, least significant first.
#[derive(Clone, Copy, PartialEq, Eq, Structural, Debug)]
pub struct Amount {
    pub l0: u64,
    pub l1: u64,
    pub l2: u64,
    pub l3: u64,
}

impl Amount {
    /// The mathematical value this amount stands for.
    pub open spec fn value(self) -> nat {
        (self.l0 + self.l1 * pow64() + self.l2 * pow128() + self.l3 * pow192()) as nat
    }

    /// Every representable value is below 2^256.
    pub proof fn lemma_value_bound(self)
        ensures
            self.value() < pow256(),
    {
    }

    /// The zero amount.
    pub fn zero() -> (r: Amount)
        ensures
            r.value() == 0,
    {
        Amount { l0: 0, l1: 0, l2: 0, l3: 0 }
    }

    /// The amount with a given small value.
    pub fn from_u64(v: u64) -> (r: Amount)
        ensures
            r.value() == v,
    {
        Amount { l0: v, l1: 0, l2: 0, l3: 0 }
    }

    /// Whether this amount is zero.
    pub fn is_zero(&self) -> (r: bool)
        ensures
            r == (self.value() == 0),
    {
        self.l0 == 0 && self.l1 == 0 && self.l2 == 0 && self.l3 == 0
    }

    /// Checked addition: `None` exactly when the true sum does not fit in 256 bits.
    pub fn checked_add(self, other: Amount) -> (r: Option<Amount>)
        ensures
            self.value() + other.value() < pow256() ==> (r is Some
                && r->Some_0.value() == self.value() + other.value()),
            self.value() + other.value() >= pow256() ==> r is None,
    {
        let t0: u128 = self.l0 as u128 + other.l0 as u128;
        let s0: u64 = (t0 % LIMB_BASE) as u64;
        let c0: u128 = t0 / LIMB_BASE;
        let t1: u128 = self.l1 as u128 + other.l1 as u128 + c0;
        let s1: u64 = (t1 % LIMB_BASE) as u64;
        let c1: u128 = t1 / LIMB_BASE;
        let t2: u128 = self.l2 as u128 + other.l2 as u128 + c1;
        let s2: u64 = (t2 % LIMB_BASE) as u64;
        let c2: u128 = t2 / LIMB_BASE;
        let t3: u128 = self.l3 as u128 + other.l3 as u128 + c2;
        let s3: u64 = (t3 % LIMB_BASE) as u64;
        let c3: u128 = t3 / LIMB_BASE;
        proof {
            lemma_carry_split(t0 as int);
            lemma_carry_split(t1 as int);
            lemma_carry_split(t2 as int);
            lemma_carry_split(t3 as int);
            let s = Amount { l0: s0, l1: s1, l2: s2, l3: s3 };
            assert(s.value() + c3 * pow256() == self.value() + other.value());
        }
        if c3 == 0 {
            Some(Amount { l0: s0, l1: s1, l2: s2, l3: s3 })
        } else {
            None
        }
    }

    /// Checked subtraction: `None` exactly when `other` exceeds `self`.
    pub fn checked_sub(self, other: Amount) -> (r: Option<Amount>)
        ensures
            other.value() <= self.value() ==> (r is Some
                && r->Some_0.value() == self.value() - other.value()),
            other.value() > self.value() ==> r is None,
    {
        let t0: u128 = LIMB_BASE + self.l0 as u128 - other.l0 as u128;
        let d0: u64 = (t0 % LIMB_BASE) as u64;
        let b0: u128 = 1 - t0 / LIMB_BASE;
        let t1: u128 = LIMB_BASE + self.l1 as u128 - other.l1 as u128 - b0;
        let d1: u64 = (t1 % LIMB_BASE) as u64;
        let b1: u128 = 1 - t1 / LIMB_BASE;
        let t2: u128 = LIMB_BASE + self.l2 as u128 - other.l2 as u128 - b1;
        let d2: u64 = (t2 % LIMB_BASE) as u64;
        let b2: u128 = 1 - t2 / LIMB_BASE;
        let t3: u128 = LIMB_BASE + self.l3 as u128 - other.l3 as u128 - b2;
        let d3: u64 = (t3 % LIMB_BASE) as u64;
        let b3: u128 = 1 - t3 / LIMB_BASE;
        proof {
            lemma_carry_split(t0 as int);
            lemma_carry_split(t1 as int);
            lemma_carry_split(t2 as int);
            lemma_carry_split(t3 as int);
            let d = Amount { l0: d0, l1: d1, l2: d2, l3: d3 };
            assert(d.value() == self.value() - other.value() + b3 * pow256());
        }
        if b3 == 0 {
            Some(Amount { l0: d0, l1: d1, l2: d2, l3: d3 })
        } else {
            None
        }
    }

    /// Checked multiplication by a 64-bit factor: `None` exactly when the true
    /// product does not fit in 256 bits.
    pub fn checked_mul_u64(self, m: u64) -> (r: Option<Amount>)
        ensures
            self.value() * m < pow256() ==> (r is Some
                && r->Some_0.value() == self.value() * m),
            self.value() * m >= pow256() ==> r is None,
    {
        let mm: u128 = m as u128;
        proof {
            assert(self.l0 as u128 * mm < LIMB_BASE * LIMB_BASE) by (nonlinear_arith)
                requires self.l0 < LIMB_BASE && mm < LIMB_BASE;
        }
        let t0: u128 = self.l0 as u128 * mm;
        let p0: u64 = (t0 % LIMB_BASE) as u64;
        let c0: u128 = t0 / LIMB_BASE;
        proof {
            lemma_carry_split(t0 as int);
            assert(self.l1 as u128 * mm <= (LIMB_BASE - 1) * (LIMB_BASE - 1)) by (nonlinear_arith)
                requires self.l1 <= LIMB_BASE - 1 && mm <= LIMB_BASE - 1;
        }
        let t1: u128 = self.l1 as u128 * mm + c0;
        let p1: u64 = (t1 % LIMB_BASE) as u64;
        let c1: u128 = t1 / LIMB_BASE;
        proof {
            lemma_carry_split(t1 as int);
            assert(self.l2 as u128 * mm <= (LIMB_BASE - 1) * (LIMB_BASE - 1)) by (nonlinear_arith)
                requires self.l2 <= LIMB_BASE - 1 && mm <= LIMB_BASE - 1;
        }
        let t2: u128 = self.l2 as u128 * mm + c1;
        let p2: u64 = (t2 % LIMB_BASE) as u64;
        let c2: u128 = t2 / LIMB_BASE;
        proof {
            lemma_carry_split(t2 as int);
            assert(self.l3 as u128 * mm <= (LIMB_BASE - 1) * (LIMB_BASE - 1)) by (nonlinear_arith)
                requires self.l3 <= LIMB_BASE - 1 && mm <= LIMB_BASE - 1;
        }
        let t3: u128 = self.l3 as u128 * mm + c2;
        let p3: u64 = (t3 % LIMB_BASE) as u64;
        let c3: u128 = t3 / LIMB_BASE;
        proof {
            lemma_carry_split(t3 as int);
            assert(self.value() * m
                == self.l0 * m + (self.l1 * m) * pow64() + (self.l2 * m) * pow128()
                    + (self.l3 * m) * pow192()) by (nonlinear_arith);
            let p = Amount { l0: p0, l1: p1, l2: p2, l3: p3 };
            assert(p.value() + c3 * pow256() == self.value() * m);
        }
        if c3 == 0 {
            Some(Amount { l0: p0, l1: p1, l2: p2, l3: p3 })
        } else {
            None
        }
    }

    /// Strict comparison on values.
    pub fn lt(&self, other: &Amount) -> (r: bool)
        ensures
            r == (self.value() < other.value()),
    {
        proof {
            lemma_limb_order(
                self.l0 as int, self.l1 as int, self.l2 as int, self.l3 as int,
                other.l0 as int, other.l1 as int, other.l2 as int, other.l3 as int,
            );
        }
        if self.l3 != other.l3 {
            self.l3 < other.l3
        } else if self.l2 != other.l2 {
            self.l2 < other.l2
        } else if self.l1 != other.l1 {
            self.l1 < other.l1
        } else {
            self.l0 < other.l0
        }
    }
}

/// A carry or borrow step: any 128-bit intermediate splits uniquely into a
/// quotient and a remainder by the limb base.
proof fn lemma_carry_split(t: int)
    requires
        0 <= t < pow64() * pow64(),
    ensures
        t == (t / 0x10000000000000000) * pow64() + t % 0x10000000000000000,
        0 <= t % 0x10000000000000000 < pow64(),
        0 <= t / 0x10000000000000000 < pow64(),
{
    vstd::arithmetic::div_mod::lemma_fundamental_div_mod(t, 0x10000000000000000);
    assert((t / 0x10000000000000000) * pow64() <= t);
    assert(t / 0x10000000000000000 < pow64());
}

/// Limbwise lexicographic order agrees with the order of the values.
proof fn lemma_limb_order(
    a0: int, a1: int, a2: int, a3: int,
    b0: int, b1: int, b2: int, b3: int,
)
    requires
        0 <= a0 < pow64() && 0 <= a1 < pow64() && 0 <= a2 < pow64() && 0 <= a3 < pow64(),
        0 <= b0 < pow64() && 0 <= b1 < pow64() && 0 <= b2 < pow64() && 0 <= b3 < pow64(),
    ensures
        a3 < b3 ==> a0 + a1 * pow64() + a2 * pow128() + a3 * pow192()
            < b0 + b1 * pow64() + b2 * pow128() + b3 * pow192(),
        a3 == b3 && a2 < b2 ==> a0 + a1 * pow64() + a2 * pow128() + a3 * pow192()
            < b0 + b1 * pow64() + b2 * pow128() + b3 * pow192(),
        a3 == b3 && a2 == b2 && a1 < b1 ==> a0 + a1 * pow64() + a2 * pow128() + a3 * pow192()
            < b0 + b1 * pow64() + b2 * pow128() + b3 * pow192(),
{
    if a3 < b3 {
        assert(a3 * pow192() + pow192() <= b3 * pow192()) by (nonlinear_arith)
            requires a3 + 1 <= b3;
    }
    if a3 == b3 && a2 < b2 {
        assert(a2 * pow128() + pow128() <= b2 * pow128()) by (nonlinear_arith)
            requires a2 + 1 <= b2;
    }
    if a3 == b3 && a2 == b2 && a1 < b1 {
        assert(a1 * pow64() + pow64() <= b1 * pow64()) by (nonlinear_arith)
            requires a1 + 1 <= b1;
    }
}

} // verus!
