//! The fungible-token ledger.
//!
//! One `Ledger` owns the balance table and the allowance table of a single
//! token. Every operation either commits completely or fails with a typed
//! error and leaves the tables untouched. While the ledger is initialized,
//! the sum of all balances equals the total supply.
//!
//! The host tells the ledger who is calling: each mutating operation takes
//! the caller's identity as an explicit argument.

use crate::addr::Addr;
use crate::amount::Amount;
use crate::errors::TokenError;
use crate::bytes::copy_bytes;
use crate::events::Event;
use vstd::prelude::*;

verus! {

// ---------------------------------------------------------------------------
// Balance table: an association list from account to amount, with distinct
// keys. An account that is absent has balance zero.
// ---------------------------------------------------------------------------

spec fn bal_lookup_from(s: Seq<(Addr, Amount)>, a: Addr, i: int) -> nat
    decreases s.len() - i,
{
    if i < 0 || i >= s.len() {
        0
    } else if s[i].0 == a {
        s[i].1.value()
    } else {
        bal_lookup_from(s, a, i + 1)
    }
}

spec fn bal_lookup(s: Seq<(Addr, Amount)>, a: Addr) -> nat {
    bal_lookup_from(s, a, 0)
}

spec fn bal_sum_from(s: Seq<(Addr, Amount)>, i: int) -> nat
    decreases s.len() - i,
{
    if i < 0 || i >= s.len() {
        0
    } else {
        s[i].1.value() + bal_sum_from(s, i + 1)
    }
}

spec fn bal_sum(s: Seq<(Addr, Amount)>) -> nat {
    bal_sum_from(s, 0)
}

spec fn bal_distinct(s: Seq<(Addr, Amount)>) -> bool {
    forall|i: int, j: int| 0 <= i < j < s.len() ==> (#[trigger] s[i]).0 != (#[trigger] s[j]).0
}

/// Looking up a key ignores entries whose key differs and entries that are
/// equal in both tables.
proof fn lemma_bal_lookup_congruence(s: Seq<(Addr, Amount)>, t: Seq<(Addr, Amount)>, b: Addr, i: int)
    requires
        s.len() == t.len(),
        forall|k: int| i <= k < s.len() ==> (#[trigger] s[k] == t[k] || (s[k].0 != b && t[k].0 != b)),
    ensures
        bal_lookup_from(s, b, i) == bal_lookup_from(t, b, i),
    decreases s.len() - i,
{
    if 0 <= i < s.len() {
        lemma_bal_lookup_congruence(s, t, b, i + 1);
    }
}

/// A match at `j` with no earlier match determines the lookup.
proof fn lemma_bal_lookup_found(s: Seq<(Addr, Amount)>, a: Addr, i: int, j: int)
    requires
        0 <= i <= j < s.len(),
        s[j].0 == a,
        forall|k: int| i <= k < j ==> (#[trigger] s[k]).0 != a,
    ensures
        bal_lookup_from(s, a, i) == s[j].1.value(),
    decreases j - i,
{
    if i < j {
        lemma_bal_lookup_found(s, a, i + 1, j);
    }
}

/// A key that matches no entry looks up to zero.
proof fn lemma_bal_lookup_absent(s: Seq<(Addr, Amount)>, a: Addr, i: int)
    requires
        forall|k: int| i <= k < s.len() ==> (#[trigger] s[k]).0 != a,
    ensures
        bal_lookup_from(s, a, i) == 0,
    decreases s.len() - i,
{
    if 0 <= i < s.len() {
        lemma_bal_lookup_absent(s, a, i + 1);
    }
}

/// Appending an entry with a fresh key does not change other lookups.
proof fn lemma_bal_lookup_push_other(s: Seq<(Addr, Amount)>, e: (Addr, Amount), b: Addr, i: int)
    requires
        b != e.0,
        0 <= i <= s.len(),
    ensures
        bal_lookup_from(s.push(e), b, i) == bal_lookup_from(s, b, i),
    decreases s.len() - i,
{
    if i < s.len() {
        lemma_bal_lookup_push_other(s, e, b, i + 1);
    } else {
        assert(s.push(e)[i] == e);
        assert(bal_lookup_from(s.push(e), b, i + 1) == 0);
    }
}

/// Replacing the entry at `j` moves the sum by the difference of the amounts.
proof fn lemma_bal_sum_update(s: Seq<(Addr, Amount)>, j: int, e: (Addr, Amount), i: int)
    requires
        0 <= j < s.len(),
        0 <= i <= s.len(),
    ensures
        i <= j ==> bal_sum_from(s.update(j, e), i) + s[j].1.value() == bal_sum_from(s, i)
            + e.1.value(),
        i > j ==> bal_sum_from(s.update(j, e), i) == bal_sum_from(s, i),
    decreases s.len() - i,
{
    if i < s.len() {
        lemma_bal_sum_update(s, j, e, i + 1);
    }
}

/// Appending an entry adds its amount to the sum.
proof fn lemma_bal_sum_push(s: Seq<(Addr, Amount)>, e: (Addr, Amount), i: int)
    requires
        0 <= i <= s.len(),
    ensures
        bal_sum_from(s.push(e), i) == bal_sum_from(s, i) + e.1.value(),
    decreases s.len() - i,
{
    if i < s.len() {
        lemma_bal_sum_push(s, e, i + 1);
    } else {
        assert(s.push(e)[i] == e);
        assert(bal_sum_from(s.push(e), i + 1) == 0);
    }
}

/// No single lookup exceeds the sum of the table.
proof fn lemma_bal_lookup_le_sum(s: Seq<(Addr, Amount)>, a: Addr, i: int)
    ensures
        bal_lookup_from(s, a, i) <= bal_sum_from(s, i),
    decreases s.len() - i,
{
    if 0 <= i < s.len() {
        lemma_bal_lookup_le_sum(s, a, i + 1);
    }
}

/// The amount recorded for `a`, zero if `a` is absent.
fn bal_get(v: &Vec<(Addr, Amount)>, a: Addr) -> (r: Amount)
    ensures
        r.value() == bal_lookup(v@, a),
{
    let n = v.len();
    let mut i: usize = 0;
    while i < n
        invariant
            i <= n,
            n == v.len(),
            bal_lookup(v@, a) == bal_lookup_from(v@, a, i as int),
        decreases n - i,
    {
        let e = v[i];
        if e.0 == a {
            return e.1;
        }
        i = i + 1;
    }
    Amount::zero()
}

/// The position of the entry for `a`, if there is one.
fn bal_find(v: &Vec<(Addr, Amount)>, a: Addr) -> (r: Option<usize>)
    ensures
        match r {
            Some(j) => j < v@.len() && v@[j as int].0 == a && (forall|k: int|
                0 <= k < j ==> (#[trigger] v@[k]).0 != a),
            None => forall|k: int| 0 <= k < v@.len() ==> (#[trigger] v@[k]).0 != a,
        },
{
    let n = v.len();
    let mut i: usize = 0;
    while i < n
        invariant
            i <= n,
            n == v.len(),
            forall|k: int| 0 <= k < i ==> (#[trigger] v@[k]).0 != a,
        decreases n - i,
    {
        if v[i].0 == a {
            return Some(i);
        }
        i = i + 1;
    }
    None
}

/// Records `x` as the amount for `a`, keeping every other entry.
fn bal_set(v: &mut Vec<(Addr, Amount)>, a: Addr, x: Amount)
    requires
        bal_distinct(old(v)@),
    ensures
        bal_distinct(final(v)@),
        bal_lookup(final(v)@, a) == x.value(),
        forall|b: Addr| b != a ==> #[trigger] bal_lookup(final(v)@, b) == bal_lookup(old(v)@, b),
        bal_sum(final(v)@) + bal_lookup(old(v)@, a) == bal_sum(old(v)@) + x.value(),
{
    let found = bal_find(v, a);
    match found {
        Some(j) => {
            let ghost s = v@;
            v.set(j, (a, x));
            proof {
                assert forall|i: int, k: int| 0 <= i < k < v@.len() implies (#[trigger] v@[i]).0
                    != (#[trigger] v@[k]).0 by {
                    assert(s[i].0 != s[k].0);
                }
                lemma_bal_lookup_found(v@, a, 0, j as int);
                lemma_bal_lookup_found(s, a, 0, j as int);
                assert forall|b: Addr| b != a implies #[trigger] bal_lookup(v@, b) == bal_lookup(
                    s,
                    b,
                ) by {
                    lemma_bal_lookup_congruence(v@, s, b, 0);
                }
                lemma_bal_sum_update(s, j as int, (a, x), 0);
            }
        },
        None => {
            let ghost s = v@;
            v.push((a, x));
            proof {
                assert forall|i: int, k: int| 0 <= i < k < v@.len() implies (#[trigger] v@[i]).0
                    != (#[trigger] v@[k]).0 by {
                    if k < s.len() {
                        assert(s[i].0 != s[k].0);
                    } else {
                        assert(v@[k] == (a, x));
                        assert(s[i].0 != a);
                    }
                }
                assert(v@[s.len() as int].0 == a);
                lemma_bal_lookup_found(v@, a, 0, s.len() as int);
                lemma_bal_lookup_absent(s, a, 0);
                assert forall|b: Addr| b != a implies #[trigger] bal_lookup(v@, b) == bal_lookup(
                    s,
                    b,
                ) by {
                    lemma_bal_lookup_push_other(s, (a, x), b, 0);
                }
                lemma_bal_sum_push(s, (a, x), 0);
            }
        },
    }
}

// ---------------------------------------------------------------------------
// Allowance table: an association list from (owner, spender) to amount, with
// distinct key pairs. A pair that is absent has allowance zero.
// ---------------------------------------------------------------------------

spec fn alw_lookup_from(s: Seq<(Addr, Addr, Amount)>, o: Addr, p: Addr, i: int) -> nat
    decreases s.len() - i,
{
    if i < 0 || i >= s.len() {
        0
    } else if s[i].0 == o && s[i].1 == p {
        s[i].2.value()
    } else {
        alw_lookup_from(s, o, p, i + 1)
    }
}

spec fn alw_lookup(s: Seq<(Addr, Addr, Amount)>, o: Addr, p: Addr) -> nat {
    alw_lookup_from(s, o, p, 0)
}

spec fn alw_distinct(s: Seq<(Addr, Addr, Amount)>) -> bool {
    forall|i: int, j: int| 0 <= i < j < s.len() ==> ((#[trigger] s[i]).0 != (#[trigger] s[j]).0
        || s[i].1 != s[j].1)
}

proof fn lemma_alw_lookup_congruence(
    s: Seq<(Addr, Addr, Amount)>,
    t: Seq<(Addr, Addr, Amount)>,
    o: Addr,
    p: Addr,
    i: int,
)
    requires
        s.len() == t.len(),
        forall|k: int| i <= k < s.len() ==> (#[trigger] s[k] == t[k] || (!(s[k].0 == o && s[k].1
            == p) && !(t[k].0 == o && t[k].1 == p))),
    ensures
        alw_lookup_from(s, o, p, i) == alw_lookup_from(t, o, p, i),
    decreases s.len() - i,
{
    if 0 <= i < s.len() {
        lemma_alw_lookup_congruence(s, t, o, p, i + 1);
    }
}

proof fn lemma_alw_lookup_found(s: Seq<(Addr, Addr, Amount)>, o: Addr, p: Addr, i: int, j: int)
    requires
        0 <= i <= j < s.len(),
        s[j].0 == o && s[j].1 == p,
        forall|k: int| i <= k < j ==> !((#[trigger] s[k]).0 == o && s[k].1 == p),
    ensures
        alw_lookup_from(s, o, p, i) == s[j].2.value(),
    decreases j - i,
{
    if i < j {
        lemma_alw_lookup_found(s, o, p, i + 1, j);
    }
}

proof fn lemma_alw_lookup_absent(s: Seq<(Addr, Addr, Amount)>, o: Addr, p: Addr, i: int)
    requires
        forall|k: int| i <= k < s.len() ==> !((#[trigger] s[k]).0 == o && s[k].1 == p),
    ensures
        alw_lookup_from(s, o, p, i) == 0,
    decreases s.len() - i,
{
    if 0 <= i < s.len() {
        lemma_alw_lookup_absent(s, o, p, i + 1);
    }
}

proof fn lemma_alw_lookup_push_other(
    s: Seq<(Addr, Addr, Amount)>,
    e: (Addr, Addr, Amount),
    o: Addr,
    p: Addr,
    i: int,
)
    requires
        !(o == e.0 && p == e.1),
        0 <= i <= s.len(),
    ensures
        alw_lookup_from(s.push(e), o, p, i) == alw_lookup_from(s, o, p, i),
    decreases s.len() - i,
{
    if i < s.len() {
        lemma_alw_lookup_push_other(s, e, o, p, i + 1);
    } else {
        assert(s.push(e)[i] == e);
        assert(alw_lookup_from(s.push(e), o, p, i + 1) == 0);
    }
}

/// The allowance recorded for `(o, p)`, zero if the pair is absent.
fn alw_get(v: &Vec<(Addr, Addr, Amount)>, o: Addr, p: Addr) -> (r: Amount)
    ensures
        r.value() == alw_lookup(v@, o, p),
{
    let n = v.len();
    let mut i: usize = 0;
    while i < n
        invariant
            i <= n,
            n == v.len(),
            alw_lookup(v@, o, p) == alw_lookup_from(v@, o, p, i as int),
        decreases n - i,
    {
        let e = v[i];
        if e.0 == o && e.1 == p {
            return e.2;
        }
        i = i + 1;
    }
    Amount::zero()
}

/// The position of the entry for `(o, p)`, if there is one.
fn alw_find(v: &Vec<(Addr, Addr, Amount)>, o: Addr, p: Addr) -> (r: Option<usize>)
    ensures
        match r {
            Some(j) => j < v@.len() && v@[j as int].0 == o && v@[j as int].1 == p && (forall|
                k: int,
            |
                0 <= k < j ==> !((#[trigger] v@[k]).0 == o && v@[k].1 == p)),
            None => forall|k: int| 0 <= k < v@.len() ==> !((#[trigger] v@[k]).0 == o && v@[k].1
                == p),
        },
{
    let n = v.len();
    let mut i: usize = 0;
    while i < n
        invariant
            i <= n,
            n == v.len(),
            forall|k: int| 0 <= k < i ==> !((#[trigger] v@[k]).0 == o && v@[k].1 == p),
        decreases n - i,
    {
        let e = v[i];
        if e.0 == o && e.1 == p {
            return Some(i);
        }
        i = i + 1;
    }
    None
}

/// Records `x` as the allowance for `(o, p)`, keeping every other entry.
fn alw_set(v: &mut Vec<(Addr, Addr, Amount)>, o: Addr, p: Addr, x: Amount)
    requires
        alw_distinct(old(v)@),
    ensures
        alw_distinct(final(v)@),
        alw_lookup(final(v)@, o, p) == x.value(),
        forall|o2: Addr, p2: Addr| !(o2 == o && p2 == p) ==> #[trigger] alw_lookup(final(v)@, o2, p2)
            == alw_lookup(old(v)@, o2, p2),
{
    let found = alw_find(v, o, p);
    match found {
        Some(j) => {
            let ghost s = v@;
            v.set(j, (o, p, x));
            proof {
                assert forall|i: int, k: int| 0 <= i < k < v@.len() implies ((#[trigger] v@[i]).0
                    != (#[trigger] v@[k]).0 || v@[i].1 != v@[k].1) by {
                    assert(s[i].0 != s[k].0 || s[i].1 != s[k].1);
                }
                lemma_alw_lookup_found(v@, o, p, 0, j as int);
                assert forall|o2: Addr, p2: Addr| !(o2 == o && p2 == p) implies #[trigger] alw_lookup(
                    v@,
                    o2,
                    p2,
                ) == alw_lookup(s, o2, p2) by {
                    lemma_alw_lookup_congruence(v@, s, o2, p2, 0);
                }
            }
        },
        None => {
            let ghost s = v@;
            v.push((o, p, x));
            proof {
                assert forall|i: int, k: int| 0 <= i < k < v@.len() implies ((#[trigger] v@[i]).0
                    != (#[trigger] v@[k]).0 || v@[i].1 != v@[k].1) by {
                    if k < s.len() {
                        assert(s[i].0 != s[k].0 || s[i].1 != s[k].1);
                    } else {
                        assert(v@[k] == (o, p, x));
                        assert(!(s[i].0 == o && s[i].1 == p));
                    }
                }
                assert(v@[s.len() as int].0 == o && v@[s.len() as int].1 == p);
                lemma_alw_lookup_found(v@, o, p, 0, s.len() as int);
                assert forall|o2: Addr, p2: Addr| !(o2 == o && p2 == p) implies #[trigger] alw_lookup(
                    v@,
                    o2,
                    p2,
                ) == alw_lookup(s, o2, p2) by {
                    lemma_alw_lookup_push_other(s, (o, p, x), o2, p2, 0);
                }
            }
        },
    }
}

// ---------------------------------------------------------------------------
// The ledger itself.
// ---------------------------------------------------------------------------

/// The balance and allowance bookkeeping of one token.
pub struct Ledger {
    initialized: bool,
    name: Vec<u8>,
    symbol: Vec<u8>,
    decimals: u8,
    total_supply: Amount,
    owner: Addr,
    balances: Vec<(Addr, Amount)>,
    allowances: Vec<(Addr, Addr, Amount)>,
    events: Vec<Event>,
}

/// The token configuration written by the one-time initialization is the
/// same in `pre` and `post`.
pub open spec fn config_unchanged(pre: Ledger, post: Ledger) -> bool {
    &&& post.spec_initialized() == pre.spec_initialized()
    &&& post.spec_name() == pre.spec_name()
    &&& post.spec_symbol() == pre.spec_symbol()
    &&& post.spec_decimals() == pre.spec_decimals()
    &&& post.spec_owner() == pre.spec_owner()
    &&& post.spec_total_supply() == pre.spec_total_supply()
}

impl Ledger {
    /// Internal consistency: distinct table keys; while initialized, the
    /// balances in total equal the total supply; before initialization the
    /// tables are empty and the supply is zero.
    pub closed spec fn wf(self) -> bool {
        &&& bal_distinct(self.balances@)
        &&& alw_distinct(self.allowances@)
        &&& (self.initialized ==> bal_sum(self.balances@) == self.total_supply.value())
        &&& (!self.initialized ==> self.balances@.len() == 0 && self.allowances@.len() == 0
            && self.total_supply.value() == 0)
    }

    /// Whether the one-time initialization has happened.
    pub closed spec fn spec_initialized(self) -> bool {
        self.initialized
    }

    /// The balance of `a`; zero for an account that never took part.
    pub closed spec fn spec_balance_of(self, a: Addr) -> nat {
        bal_lookup(self.balances@, a)
    }

    /// The remaining amount `p` may move out of `o`'s balance.
    pub closed spec fn spec_allowance(self, o: Addr, p: Addr) -> nat {
        alw_lookup(self.allowances@, o, p)
    }

    /// The fixed total supply of the token.
    pub closed spec fn spec_total_supply(self) -> nat {
        self.total_supply.value()
    }

    /// The sum of all balances.
    pub closed spec fn spec_sum_of_balances(self) -> nat {
        bal_sum(self.balances@)
    }

    /// The display name.
    pub closed spec fn spec_name(self) -> Seq<u8> {
        self.name@
    }

    /// The ticker symbol.
    pub closed spec fn spec_symbol(self) -> Seq<u8> {
        self.symbol@
    }

    /// The number of decimals.
    pub closed spec fn spec_decimals(self) -> u8 {
        self.decimals
    }

    /// The account that received the whole supply at initialization.
    pub closed spec fn spec_owner(self) -> Addr {
        self.owner
    }

    /// All events emitted so far, oldest first.
    pub closed spec fn spec_events(self) -> Seq<Event> {
        self.events@
    }

    /// A fresh, uninitialized ledger.
    pub fn new() -> (l: Ledger)
        ensures
            l.wf(),
            !l.spec_initialized(),
            l.spec_total_supply() == 0,
            forall|a: Addr| #[trigger] l.spec_balance_of(a) == 0,
            forall|o: Addr, p: Addr| #[trigger] l.spec_allowance(o, p) == 0,
            l.spec_events().len() == 0,
    {
        Ledger {
            initialized: false,
            name: Vec::new(),
            symbol: Vec::new(),
            decimals: 0,
            total_supply: Amount::zero(),
            owner: Addr::zero(),
            balances: Vec::new(),
            allowances: Vec::new(),
            events: Vec::new(),
        }
    }

    /// One-time setup: records the configuration and credits the whole
    /// supply to the caller. A second call fails and changes nothing, so the
    /// supply is never credited twice.
    pub fn initialize(
        &mut self,
        caller: Addr,
        name: Vec<u8>,
        symbol: Vec<u8>,
        decimals: u8,
        total_supply: Amount,
    ) -> (r: Result<(), TokenError>)
        requires
            old(self).wf(),
        ensures
            final(self).wf(),
            old(self).spec_initialized() ==> r == Err::<(), TokenError>(
                TokenError::AlreadyInitialized,
            ) && *final(self) == *old(self),
            !old(self).spec_initialized() ==> {
                &&& r is Ok
                &&& final(self).spec_initialized()
                &&& final(self).spec_name() == name@
                &&& final(self).spec_symbol() == symbol@
                &&& final(self).spec_decimals() == decimals
                &&& final(self).spec_owner() == caller
                &&& final(self).spec_total_supply() == total_supply.value()
                &&& final(self).spec_balance_of(caller) == total_supply.value()
                &&& forall|a: Addr| a != caller ==> #[trigger] final(self).spec_balance_of(a) == 0
                &&& forall|o: Addr, p: Addr| #[trigger] final(self).spec_allowance(o, p) == 0
                &&& final(self).spec_events() == old(self).spec_events()
            },
    {
        if self.initialized {
            return Err(TokenError::AlreadyInitialized);
        }
        self.name = name;
        self.symbol = symbol;
        self.decimals = decimals;
        self.total_supply = total_supply;
        self.owner = caller;
        self.initialized = true;
        let ghost empty = self.balances@;
        self.balances.push((caller, total_supply));
        proof {
            assert(self.balances@[0] == (caller, total_supply));
            lemma_bal_lookup_found(self.balances@, caller, 0, 0);
            assert(bal_sum_from(self.balances@, 1) == 0);
            assert(bal_sum(self.balances@) == total_supply.value());
            assert forall|a: Addr| a != caller implies #[trigger] self.spec_balance_of(a) == 0 by {
                lemma_bal_lookup_absent(self.balances@, a, 0);
            }
        }
        Ok(())
    }

    /// Whether the one-time initialization has happened.
    fn is_initialized(&self) -> (r: bool)
        ensures
            r == self.spec_initialized(),
    {
        self.initialized
    }

    /// Whether the one-time initialization has happened.
    pub fn is_initialized_public(&self) -> (r: bool)
        ensures
            r == self.spec_initialized(),
    {
        self.is_initialized()
    }

    /// Succeeds exactly when the ledger is initialized.
    pub fn ensure_initialized(&self) -> (r: Result<(), TokenError>)
        ensures
            self.spec_initialized() ==> r is Ok,
            !self.spec_initialized() ==> r == Err::<(), TokenError>(TokenError::NotInitialized),
    {
        if self.is_initialized() {
            Ok(())
        } else {
            Err(TokenError::NotInitialized)
        }
    }

    /// The balance of `account`; zero for an account that never took part.
    pub fn balance_of(&self, account: Addr) -> (r: Result<Amount, TokenError>)
        ensures
            self.spec_initialized() ==> (r matches Ok(b) && b.value() == self.spec_balance_of(
                account,
            )),
            !self.spec_initialized() ==> r == Err::<Amount, TokenError>(TokenError::NotInitialized),
    {
        if !self.is_initialized() {
            return Err(TokenError::NotInitialized);
        }
        Ok(bal_get(&self.balances, account))
    }

    /// The remaining amount `spender` may move out of `owner`'s balance.
    pub fn allowance(&self, owner: Addr, spender: Addr) -> (r: Result<Amount, TokenError>)
        ensures
            self.spec_initialized() ==> (r matches Ok(b) && b.value() == self.spec_allowance(
                owner,
                spender,
            )),
            !self.spec_initialized() ==> r == Err::<Amount, TokenError>(TokenError::NotInitialized),
    {
        if !self.is_initialized() {
            return Err(TokenError::NotInitialized);
        }
        Ok(alw_get(&self.allowances, owner, spender))
    }

    /// Moves `amount` from the caller to `to`. Fails, changing nothing, when
    /// the caller's balance is short. A self-transfer succeeds whenever the
    /// balance suffices and moves nothing.
    pub fn transfer(&mut self, caller: Addr, to: Addr, amount: Amount) -> (r: Result<
        (),
        TokenError,
    >)
        requires
            old(self).wf(),
        ensures
            final(self).wf(),
            !old(self).spec_initialized() ==> r == Err::<(), TokenError>(TokenError::NotInitialized)
                && *final(self) == *old(self),
            old(self).spec_initialized() && amount.value() > old(self).spec_balance_of(caller)
                ==> r == Err::<(), TokenError>(TokenError::InsufficientBalance) && *final(self)
                == *old(self),
            old(self).spec_initialized() && amount.value() <= old(self).spec_balance_of(caller)
                ==> {
                &&& r is Ok
                &&& to != caller ==> final(self).spec_balance_of(caller) == old(self).spec_balance_of(caller) - amount.value()
                &&& to != caller ==> final(self).spec_balance_of(to) == old(self).spec_balance_of(
                    to,
                ) + amount.value()
                &&& to == caller ==> final(self).spec_balance_of(caller) == old(self).spec_balance_of(caller)
                &&& forall|a: Addr| a != caller && a != to ==> #[trigger] final(self).spec_balance_of(a) == old(self).spec_balance_of(a)
                &&& forall|o: Addr, p: Addr| #[trigger] final(self).spec_allowance(o, p) == old(self).spec_allowance(o, p)
                &&& final(self).spec_sum_of_balances() == old(self).spec_sum_of_balances()
                &&& config_unchanged(*old(self), *final(self))
                &&& final(self).spec_events() == old(self).spec_events().push(
                    Event::Transfer { from: caller, to, value: amount },
                )
            },
    {
        if !self.is_initialized() {
            return Err(TokenError::NotInitialized);
        }
        let bal = bal_get(&self.balances, caller);
        let nb = match bal.checked_sub(amount) {
            None => {
                return Err(TokenError::InsufficientBalance);
            },
            Some(nb) => nb,
        };
        bal_set(&mut self.balances, caller, nb);
        let tb = bal_get(&self.balances, to);
        proof {
            lemma_bal_lookup_le_sum(self.balances@, to, 0);
            self.total_supply.lemma_value_bound();
        }
        let ntb = match tb.checked_add(amount) {
            None => {
                proof {
                    assert(false);
                }
                Amount::zero()
            },
            Some(ntb) => ntb,
        };
        bal_set(&mut self.balances, to, ntb);
        self.events.push(Event::Transfer { from: caller, to, value: amount });
        Ok(())
    }

    /// Sets the caller's allowance for `spender` to `amount`, overwriting
    /// the previous allowance rather than adding to it. The overwrite
    /// semantics is a known race hazard of the standard this models and is
    /// kept for compatibility.
    pub fn approve(&mut self, caller: Addr, spender: Addr, amount: Amount) -> (r: Result<
        (),
        TokenError,
    >)
        requires
            old(self).wf(),
        ensures
            final(self).wf(),
            !old(self).spec_initialized() ==> r == Err::<(), TokenError>(TokenError::NotInitialized)
                && *final(self) == *old(self),
            old(self).spec_initialized() ==> {
                &&& r is Ok
                &&& final(self).spec_allowance(caller, spender) == amount.value()
                &&& forall|o: Addr, p: Addr| !(o == caller && p == spender) ==> #[trigger] final(self).spec_allowance(o, p) == old(self).spec_allowance(o, p)
                &&& forall|a: Addr| #[trigger] final(self).spec_balance_of(a) == old(self).spec_balance_of(a)
                &&& final(self).spec_sum_of_balances() == old(self).spec_sum_of_balances()
                &&& config_unchanged(*old(self), *final(self))
                &&& final(self).spec_events() == old(self).spec_events().push(
                    Event::Approval { owner: caller, spender, value: amount },
                )
            },
    {
        if !self.is_initialized() {
            return Err(TokenError::NotInitialized);
        }
        alw_set(&mut self.allowances, caller, spender, amount);
        self.events.push(Event::Approval { owner: caller, spender, value: amount });
        Ok(())
    }

    /// Moves `amount` from `from` to `to` on behalf of the caller, consuming
    /// exactly `amount` of the caller's allowance. The allowance is checked
    /// before the balance; a failure of either check changes nothing.
    pub fn transfer_from(&mut self, caller: Addr, from: Addr, to: Addr, amount: Amount) -> (r:
        Result<(), TokenError>)
        requires
            old(self).wf(),
        ensures
            final(self).wf(),
            !old(self).spec_initialized() ==> r == Err::<(), TokenError>(TokenError::NotInitialized)
                && *final(self) == *old(self),
            old(self).spec_initialized() && amount.value() > old(self).spec_allowance(from, caller)
                ==> r == Err::<(), TokenError>(TokenError::InsufficientAllowance) && *final(self)
                == *old(self),
            old(self).spec_initialized() && amount.value() <= old(self).spec_allowance(from, caller)
                && amount.value() > old(self).spec_balance_of(from) ==> r == Err::<(), TokenError>(
                TokenError::InsufficientBalance,
            ) && *final(self) == *old(self),
            old(self).spec_initialized() && amount.value() <= old(self).spec_allowance(from, caller)
                && amount.value() <= old(self).spec_balance_of(from) ==> {
                &&& r is Ok
                &&& final(self).spec_allowance(from, caller) == old(self).spec_allowance(
                    from,
                    caller,
                ) - amount.value()
                &&& forall|o: Addr, p: Addr| !(o == from && p == caller) ==> #[trigger] final(self).spec_allowance(o, p) == old(self).spec_allowance(o, p)
                &&& to != from ==> final(self).spec_balance_of(from) == old(self).spec_balance_of(
                    from,
                ) - amount.value()
                &&& to != from ==> final(self).spec_balance_of(to) == old(self).spec_balance_of(to)
                    + amount.value()
                &&& to == from ==> final(self).spec_balance_of(from) == old(self).spec_balance_of(
                    from,
                )
                &&& forall|a: Addr| a != from && a != to ==> #[trigger] final(self).spec_balance_of(
                    a,
                ) == old(self).spec_balance_of(a)
                &&& final(self).spec_sum_of_balances() == old(self).spec_sum_of_balances()
                &&& config_unchanged(*old(self), *final(self))
                &&& final(self).spec_events() == old(self).spec_events().push(
                    Event::Transfer { from, to, value: amount },
                )
            },
    {
        if !self.is_initialized() {
            return Err(TokenError::NotInitialized);
        }
        let alw = alw_get(&self.allowances, from, caller);
        let na = match alw.checked_sub(amount) {
            None => {
                return Err(TokenError::InsufficientAllowance);
            },
            Some(na) => na,
        };
        let bal = bal_get(&self.balances, from);
        let nb = match bal.checked_sub(amount) {
            None => {
                return Err(TokenError::InsufficientBalance);
            },
            Some(nb) => nb,
        };
        alw_set(&mut self.allowances, from, caller, na);
        bal_set(&mut self.balances, from, nb);
        let tb = bal_get(&self.balances, to);
        proof {
            lemma_bal_lookup_le_sum(self.balances@, to, 0);
            self.total_supply.lemma_value_bound();
        }
        let ntb = match tb.checked_add(amount) {
            None => {
                proof {
                    assert(false);
                }
                Amount::zero()
            },
            Some(ntb) => ntb,
        };
        bal_set(&mut self.balances, to, ntb);
        self.events.push(Event::Transfer { from, to, value: amount });
        Ok(())
    }

    /// The display name, once initialized.
    pub fn name(&self) -> (r: Result<Vec<u8>, TokenError>)
        ensures
            self.spec_initialized() ==> (r matches Ok(n) && n@ == self.spec_name()),
            !self.spec_initialized() ==> r == Err::<Vec<u8>, TokenError>(TokenError::NotInitialized),
    {
        if !self.is_initialized() {
            return Err(TokenError::NotInitialized);
        }
        Ok(copy_bytes(&self.name))
    }

    /// The ticker symbol, once initialized.
    pub fn symbol(&self) -> (r: Result<Vec<u8>, TokenError>)
        ensures
            self.spec_initialized() ==> (r matches Ok(s) && s@ == self.spec_symbol()),
            !self.spec_initialized() ==> r == Err::<Vec<u8>, TokenError>(TokenError::NotInitialized),
    {
        if !self.is_initialized() {
            return Err(TokenError::NotInitialized);
        }
        Ok(copy_bytes(&self.symbol))
    }

    /// The number of decimals, once initialized.
    pub fn decimals(&self) -> (r: Result<u8, TokenError>)
        ensures
            self.spec_initialized() ==> r == Ok::<u8, TokenError>(self.spec_decimals()),
            !self.spec_initialized() ==> r == Err::<u8, TokenError>(TokenError::NotInitialized),
    {
        if !self.is_initialized() {
            return Err(TokenError::NotInitialized);
        }
        Ok(self.decimals)
    }

    /// The fixed total supply, once initialized.
    pub fn total_supply(&self) -> (r: Result<Amount, TokenError>)
        ensures
            self.spec_initialized() ==> (r matches Ok(t) && t.value() == self.spec_total_supply()),
            !self.spec_initialized() ==> r == Err::<Amount, TokenError>(TokenError::NotInitialized),
    {
        if !self.is_initialized() {
            return Err(TokenError::NotInitialized);
        }
        Ok(self.total_supply)
    }

    /// Hands out the events emitted so far and empties the log; the host
    /// forwards them to its sink.
    pub fn drain_events(&mut self) -> (r: Vec<Event>)
        ensures
            final(self).wf() == old(self).wf(),
            r@ == old(self).spec_events(),
            final(self).spec_events().len() == 0,
            final(self).spec_initialized() == old(self).spec_initialized(),
            forall|a: Addr| #[trigger] final(self).spec_balance_of(a) == old(self).spec_balance_of(
                a,
            ),
            forall|o: Addr, p: Addr| #[trigger] final(self).spec_allowance(o, p) == old(self).spec_allowance(o, p),
            final(self).spec_sum_of_balances() == old(self).spec_sum_of_balances(),
            config_unchanged(*old(self), *final(self)),
    {
        let mut taken: Vec<Event> = Vec::new();
        core::mem::swap(&mut taken, &mut self.events);
        taken
    }
}

/// While a ledger is initialized, the balances in total always equal the
/// total supply: transfers redistribute it and never create or destroy it.
pub proof fn lemma_supply_conserved(l: Ledger)
    requires
        l.wf(),
        l.spec_initialized(),
    ensures
        l.spec_sum_of_balances() == l.spec_total_supply(),
{
}

/// No single balance ever exceeds the total supply.
pub proof fn lemma_balance_le_supply(l: Ledger, a: Addr)
    requires
        l.wf(),
        l.spec_initialized(),
    ensures
        l.spec_balance_of(a) <= l.spec_total_supply(),
{
    lemma_bal_lookup_le_sum(l.balances@, a, 0);
}

} // verus!
