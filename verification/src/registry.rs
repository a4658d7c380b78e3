//! The registry: the durable catalogue of tokens created by a factory.
//!
//! An address is registered at most once and never removed; deactivation
//! flips a flag and keeps the entry. Indices count successful registrations
//! from one upward; index zero is reserved and never assigned.

use crate::addr::Addr;
use crate::amount::Amount;
use crate::bytes::copy_bytes;
use crate::errors::RegistryError;
use vstd::prelude::*;

verus! {

/// The immutable-after-initialization description of one token.
pub struct TokenMetadata {
    /// The display name.
    pub name: Vec<u8>,
    /// The ticker symbol.
    pub symbol: Vec<u8>,
    /// The number of decimals.
    pub decimals: u8,
    /// The fixed total supply.
    pub total_supply: Amount,
    /// The account that created the token.
    pub owner: Addr,
    /// The host's creation marker, a timestamp or block number.
    pub created_at: Amount,
}

/// The mathematical content of a `TokenMetadata`.
pub struct MetadataView {
    pub name: Seq<u8>,
    pub symbol: Seq<u8>,
    pub decimals: u8,
    pub total_supply: nat,
    pub owner: Addr,
    pub created_at: nat,
}

impl View for TokenMetadata {
    type V = MetadataView;

    open spec fn view(&self) -> MetadataView {
        MetadataView {
            name: self.name@,
            symbol: self.symbol@,
            decimals: self.decimals,
            total_supply: self.total_supply.value(),
            owner: self.owner,
            created_at: self.created_at.value(),
        }
    }
}

impl TokenMetadata {
    /// A field-for-field copy.
    pub fn duplicate(&self) -> (r: TokenMetadata)
        ensures
            r@ == self@,
    {
        TokenMetadata {
            name: copy_bytes(&self.name),
            symbol: copy_bytes(&self.symbol),
            decimals: self.decimals,
            total_supply: self.total_supply,
            owner: self.owner,
            created_at: self.created_at,
        }
    }
}

/// One catalogue entry: an address, its metadata, and whether the token is
/// still active.
pub struct TokenInfo {
    /// The token's address.
    pub address: Addr,
    /// The metadata recorded at registration.
    pub metadata: TokenMetadata,
    /// Cleared by deactivation, never set again.
    pub is_active: bool,
}

/// The mathematical content of a `TokenInfo`.
pub struct InfoView {
    pub address: Addr,
    pub metadata: MetadataView,
    pub is_active: bool,
}

impl View for TokenInfo {
    type V = InfoView;

    open spec fn view(&self) -> InfoView {
        InfoView { address: self.address, metadata: self.metadata@, is_active: self.is_active }
    }
}

impl TokenInfo {
    /// A field-for-field copy.
    pub fn duplicate(&self) -> (r: TokenInfo)
        ensures
            r@ == self@,
    {
        TokenInfo {
            address: self.address,
            metadata: self.metadata.duplicate(),
            is_active: self.is_active,
        }
    }
}

// ---------------------------------------------------------------------------
// Entry table: insertion-ordered, with distinct nonzero addresses.
// ---------------------------------------------------------------------------

spec fn reg_lookup_from(s: Seq<TokenInfo>, a: Addr, i: int) -> Option<InfoView>
    decreases s.len() - i,
{
    if i < 0 || i >= s.len() {
        None
    } else if s[i].address == a {
        Some(s[i]@)
    } else {
        reg_lookup_from(s, a, i + 1)
    }
}

spec fn reg_lookup(s: Seq<TokenInfo>, a: Addr) -> Option<InfoView> {
    reg_lookup_from(s, a, 0)
}

spec fn reg_distinct(s: Seq<TokenInfo>) -> bool {
    forall|i: int, j: int| 0 <= i < j < s.len() ==> (#[trigger] s[i]).address != (#[trigger] s[j]).address
}

proof fn lemma_reg_lookup_congruence(s: Seq<TokenInfo>, t: Seq<TokenInfo>, b: Addr, i: int)
    requires
        s.len() == t.len(),
        forall|k: int| i <= k < s.len() ==> ((#[trigger] s[k])@ == (#[trigger] t[k])@ || (s[k].address
            != b && t[k].address != b)),
    ensures
        reg_lookup_from(s, b, i) == reg_lookup_from(t, b, i),
    decreases s.len() - i,
{
    if 0 <= i < s.len() {
        lemma_reg_lookup_congruence(s, t, b, i + 1);
    }
}

proof fn lemma_reg_lookup_found(s: Seq<TokenInfo>, a: Addr, i: int, j: int)
    requires
        0 <= i <= j < s.len(),
        s[j].address == a,
        forall|k: int| i <= k < j ==> (#[trigger] s[k]).address != a,
    ensures
        reg_lookup_from(s, a, i) == Some(s[j]@),
    decreases j - i,
{
    if i < j {
        lemma_reg_lookup_found(s, a, i + 1, j);
    }
}

proof fn lemma_reg_lookup_absent(s: Seq<TokenInfo>, a: Addr, i: int)
    requires
        forall|k: int| i <= k < s.len() ==> (#[trigger] s[k]).address != a,
    ensures
        reg_lookup_from(s, a, i) is None,
    decreases s.len() - i,
{
    if 0 <= i < s.len() {
        lemma_reg_lookup_absent(s, a, i + 1);
    }
}

proof fn lemma_reg_lookup_push_other(s: Seq<TokenInfo>, e: TokenInfo, b: Addr, i: int)
    requires
        b != e.address,
        0 <= i <= s.len(),
    ensures
        reg_lookup_from(s.push(e), b, i) == reg_lookup_from(s, b, i),
    decreases s.len() - i,
{
    if i < s.len() {
        lemma_reg_lookup_push_other(s, e, b, i + 1);
    } else {
        assert(s.push(e)[i] == e);
        assert(reg_lookup_from(s.push(e), b, i + 1) is None);
    }
}

/// The position of the entry for `a`, if there is one.
fn reg_find(v: &Vec<TokenInfo>, a: Addr) -> (r: Option<usize>)
    ensures
        match r {
            Some(j) => j < v@.len() && v@[j as int].address == a && (forall|k: int|
                0 <= k < j ==> (#[trigger] v@[k]).address != a),
            None => forall|k: int| 0 <= k < v@.len() ==> (#[trigger] v@[k]).address != a,
        },
{
    let n = v.len();
    let mut i: usize = 0;
    while i < n
        invariant
            i <= n,
            n == v.len(),
            forall|k: int| 0 <= k < i ==> (#[trigger] v@[k]).address != a,
        decreases n - i,
    {
        if v[i].address.hi == a.hi && v[i].address.lo == a.lo {
            return Some(i);
        }
        i = i + 1;
    }
    None
}

// ---------------------------------------------------------------------------
// The registry itself.
// ---------------------------------------------------------------------------

/// The catalogue of tokens created by one factory.
pub struct TokenRegistry {
    entries: Vec<TokenInfo>,
}

impl TokenRegistry {
    /// Internal consistency: addresses are distinct and never the zero
    /// sentinel, which stands for "no token".
    pub closed spec fn wf(self) -> bool {
        &&& reg_distinct(self.entries@)
        &&& forall|k: int| 0 <= k < self.entries@.len() ==> !(#[trigger] self.entries@[k]).address.spec_is_zero()
    }

    /// How many tokens have been registered, deactivated ones included.
    pub closed spec fn spec_count(self) -> nat {
        self.entries@.len()
    }

    /// Whether `a` is registered, active or not.
    pub closed spec fn spec_contains(self, a: Addr) -> bool {
        reg_lookup(self.entries@, a) is Some
    }

    /// The entry recorded for `a`; meaningful only while `spec_contains(a)`.
    pub closed spec fn spec_info(self, a: Addr) -> InfoView {
        reg_lookup(self.entries@, a)->Some_0
    }

    /// Whether `a` is registered and still active.
    pub closed spec fn spec_is_active(self, a: Addr) -> bool {
        self.spec_contains(a) && self.spec_info(a).is_active
    }

    /// The address registered under index `i`; meaningful for
    /// `1 <= i <= spec_count()`.
    pub closed spec fn spec_token_at(self, i: int) -> Addr {
        self.entries@[i - 1].address
    }

    /// An empty catalogue.
    pub fn new() -> (r: TokenRegistry)
        ensures
            r.wf(),
            r.spec_count() == 0,
            forall|a: Addr| !(#[trigger] r.spec_contains(a)),
    {
        TokenRegistry { entries: Vec::new() }
    }

    /// Registers `address` under the next index. Fails, changing nothing,
    /// when `address` is the zero sentinel or is already present: an address
    /// is registered at most once, and indices are never reused.
    pub fn register_token(&mut self, address: Addr, metadata: TokenMetadata) -> (r: Result<
        (),
        RegistryError,
    >)
        requires
            old(self).wf(),
        ensures
            final(self).wf(),
            address.spec_is_zero() ==> r == Err::<(), RegistryError>(RegistryError::ZeroAddress)
                && *final(self) == *old(self),
            !address.spec_is_zero() && old(self).spec_contains(address) ==> r == Err::<
                (),
                RegistryError,
            >(RegistryError::AlreadyRegistered) && *final(self) == *old(self),
            !address.spec_is_zero() && !old(self).spec_contains(address) ==> {
                &&& r is Ok
                &&& final(self).spec_count() == old(self).spec_count() + 1
                &&& final(self).spec_token_at(final(self).spec_count() as int) == address
                &&& forall|i: int| 1 <= i <= old(self).spec_count() ==> #[trigger] final(self).spec_token_at(i) == old(self).spec_token_at(i)
                &&& final(self).spec_contains(address)
                &&& final(self).spec_info(address) == (InfoView {
                    address,
                    metadata: metadata@,
                    is_active: true,
                })
                &&& forall|b: Addr| b != address ==> #[trigger] final(self).spec_contains(b)
                    == old(self).spec_contains(b)
                &&& forall|b: Addr| b != address && old(self).spec_contains(b) ==> #[trigger] final(self).spec_info(b) == old(self).spec_info(b)
            },
    {
        if address.is_zero() {
            return Err(RegistryError::ZeroAddress);
        }
        let found = reg_find(&self.entries, address);
        if let Some(_) = found {
            proof {
                lemma_reg_lookup_found(self.entries@, address, 0, found->Some_0 as int);
            }
            return Err(RegistryError::AlreadyRegistered);
        }
        proof {
            lemma_reg_lookup_absent(self.entries@, address, 0);
        }
        let ghost s = self.entries@;
        self.entries.push(TokenInfo { address, metadata, is_active: true });
        proof {
            assert forall|i: int, k: int| 0 <= i < k < self.entries@.len() implies (
            #[trigger] self.entries@[i]).address != (#[trigger] self.entries@[k]).address by {
                if k < s.len() {
                    assert(s[i].address != s[k].address);
                } else {
                    assert(self.entries@[k].address == address);
                    assert(s[i].address != address);
                }
            }
            assert(self.entries@[s.len() as int].address == address);
            lemma_reg_lookup_found(self.entries@, address, 0, s.len() as int);
            assert forall|b: Addr| b != address implies #[trigger] reg_lookup(self.entries@, b)
                == reg_lookup(s, b) by {
                lemma_reg_lookup_push_other(s, self.entries@[s.len() as int], b, 0);
            }
        }
        Ok(())
    }

    /// The entry for `address`, or `None` when it was never registered.
    pub fn get_token_info(&self, address: Addr) -> (r: Option<TokenInfo>)
        ensures
            self.spec_contains(address) ==> (r matches Some(info) && info@ == self.spec_info(
                address,
            )),
            !self.spec_contains(address) ==> r is None,
    {
        let found = reg_find(&self.entries, address);
        match found {
            Some(j) => {
                proof {
                    lemma_reg_lookup_found(self.entries@, address, 0, j as int);
                }
                Some(self.entries[j].duplicate())
            },
            None => {
                proof {
                    lemma_reg_lookup_absent(self.entries@, address, 0);
                }
                None
            },
        }
    }

    /// How many tokens have been registered, deactivated ones included.
    pub fn get_token_count(&self) -> (r: usize)
        ensures
            r == self.spec_count(),
    {
        self.entries.len()
    }

    /// The address registered under `index`. Valid indices run from one to
    /// the count; index zero is reserved and yields `None`.
    pub fn get_token_by_index(&self, index: usize) -> (r: Option<Addr>)
        ensures
            1 <= index <= self.spec_count() ==> r == Some(self.spec_token_at(index as int)),
            !(1 <= index <= self.spec_count()) ==> r is None,
    {
        if index >= 1 && index <= self.entries.len() {
            Some(self.entries[index - 1].address)
        } else {
            None
        }
    }

    /// Whether `address` is registered and still active.
    pub fn is_token(&self, address: Addr) -> (r: bool)
        ensures
            r == self.spec_is_active(address),
    {
        let found = reg_find(&self.entries, address);
        match found {
            Some(j) => {
                proof {
                    lemma_reg_lookup_found(self.entries@, address, 0, j as int);
                }
                self.entries[j].is_active
            },
            None => {
                proof {
                    lemma_reg_lookup_absent(self.entries@, address, 0);
                }
                false
            },
        }
    }

    /// Flips the entry for `address` to inactive; there is no way back.
    /// Fails, changing nothing, when `address` was never registered.
    pub fn deactivate_token(&mut self, address: Addr) -> (r: Result<(), RegistryError>)
        requires
            old(self).wf(),
        ensures
            final(self).wf(),
            !old(self).spec_contains(address) ==> r == Err::<(), RegistryError>(
                RegistryError::NotFound,
            ) && *final(self) == *old(self),
            old(self).spec_contains(address) ==> {
                &&& r is Ok
                &&& final(self).spec_count() == old(self).spec_count()
                &&& forall|i: int| 1 <= i <= old(self).spec_count() ==> #[trigger] final(self).spec_token_at(i) == old(self).spec_token_at(i)
                &&& forall|b: Addr| #[trigger] final(self).spec_contains(b) == old(self).spec_contains(b)
                &&& !final(self).spec_is_active(address)
                &&& final(self).spec_info(address).metadata == old(self).spec_info(address).metadata
                &&& final(self).spec_info(address).address == old(self).spec_info(address).address
                &&& forall|b: Addr| b != address && old(self).spec_contains(b) ==> #[trigger] final(self).spec_info(b) == old(self).spec_info(b)
            },
    {
        let found = reg_find(&self.entries, address);
        let j = match found {
            None => {
                proof {
                    lemma_reg_lookup_absent(self.entries@, address, 0);
                }
                return Err(RegistryError::NotFound);
            },
            Some(j) => j,
        };
        proof {
            lemma_reg_lookup_found(self.entries@, address, 0, j as int);
        }
        let ghost s = self.entries@;
        let mut e = self.entries[j].duplicate();
        e.is_active = false;
        self.entries.set(j, e);
        proof {
            assert forall|i: int, k: int| 0 <= i < k < self.entries@.len() implies (
            #[trigger] self.entries@[i]).address != (#[trigger] self.entries@[k]).address by {
                assert(s[i].address != s[k].address);
            }
            lemma_reg_lookup_found(self.entries@, address, 0, j as int);
            assert forall|b: Addr| b != address implies #[trigger] reg_lookup(self.entries@, b)
                == reg_lookup(s, b) by {
                lemma_reg_lookup_congruence(self.entries@, s, b, 0);
            }
        }
        Ok(())
    }
}

} // verus!
