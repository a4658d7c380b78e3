//! The factory: creates a token and records it, as one logical operation.
//!
//! The host deploys a fresh ledger instance and hands the factory its
//! address together with the caller's identity and a creation marker; the
//! factory computes the supply, runs the ledger's one-time initializer and
//! registers the result.
//!
//! Everything the registration needs is checked before the initializer is
//! invoked, so a successfully initialized token is always registered: the
//! inconsistency window of initializing first and only then discovering
//! that the registry refuses the address cannot arise.

use crate::addr::Addr;
use crate::amount::{pow256, Amount};
use crate::bytes::copy_bytes;
use crate::errors::FactoryError;
use crate::ledger::Ledger;
use crate::registry::{InfoView, MetadataView, TokenMetadata, TokenRegistry};
use vstd::arithmetic::power::{lemma_pow_increases, pow};
use vstd::prelude::*;
use vstd::string::StringSliceAdditionalSpecFns;

verus! {

/// The supply a created token starts with: one million whole tokens, scaled
/// by the requested number of decimals.
pub open spec fn spec_created_supply(decimals: u8) -> int {
    1000000 * pow(10, decimals as nat)
}

/// The name reported for an address no token is registered under.
pub open spec fn spec_unknown_name() -> Seq<u8> {
    "Unknown".spec_bytes()
}

/// The symbol reported for an address no token is registered under.
pub open spec fn spec_unknown_symbol() -> Seq<u8> {
    "UNK".spec_bytes()
}

/// The metadata reported for an address no token is registered under.
pub open spec fn spec_unknown_metadata() -> MetadataView {
    MetadataView {
        name: spec_unknown_name(),
        symbol: spec_unknown_symbol(),
        decimals: 18,
        total_supply: 0,
        owner: Addr { hi: 0, lo: 0 },
        created_at: 0,
    }
}

/// The supply of a new token, or `None` when it does not fit in 256 bits.
fn compute_supply(decimals: u8) -> (r: Option<Amount>)
    ensures
        spec_created_supply(decimals) < pow256() ==> (r matches Some(a) && a.value()
            == spec_created_supply(decimals)),
        spec_created_supply(decimals) >= pow256() ==> r is None,
{
    let mut acc = Amount::from_u64(1000000);
    proof {
        vstd::arithmetic::power::lemma_pow0(10);
    }
    let mut i: u8 = 0;
    while i < decimals
        invariant
            i <= decimals,
            acc.value() == spec_created_supply(i),
        decreases decimals - i,
    {
        proof {
            reveal(pow);
            assert(pow(10, (i + 1) as nat) == 10 * pow(10, i as nat));
        }
        let next = match acc.checked_mul_u64(10) {
            None => {
                proof {
                    lemma_pow_increases(10, (i + 1) as nat, decimals as nat);
                }
                return None;
            },
            Some(next) => next,
        };
        acc = next;
        i = i + 1;
    }
    Some(acc)
}

/// The orchestrator that creates tokens and records them in its registry.
pub struct TokenFactory {
    registry: TokenRegistry,
}

impl TokenFactory {
    /// Internal consistency of the owned registry.
    pub open spec fn wf(self) -> bool {
        self.spec_registry().wf()
    }

    /// The catalogue this factory maintains.
    pub closed spec fn spec_registry(self) -> TokenRegistry {
        self.registry
    }

    /// A factory with an empty catalogue.
    pub fn new() -> (r: TokenFactory)
        ensures
            r.wf(),
            r.spec_registry().spec_count() == 0,
            forall|a: Addr| !(#[trigger] r.spec_registry().spec_contains(a)),
    {
        TokenFactory { registry: TokenRegistry::new() }
    }

    /// Creates a token: computes the supply from `decimals`, runs the
    /// one-time initializer of the freshly deployed ledger at
    /// `token_address`, and registers the result. The registration
    /// preconditions are checked up front, so a failure never leaves an
    /// initialized but unregistered token; any failure changes nothing.
    pub fn create_token(
        &mut self,
        ledger: &mut Ledger,
        token_address: Addr,
        caller: Addr,
        name: Vec<u8>,
        symbol: Vec<u8>,
        decimals: u8,
        created_at: Amount,
    ) -> (r: Result<Addr, FactoryError>)
        requires
            old(self).wf(),
            old(ledger).wf(),
        ensures
            final(self).wf(),
            final(ledger).wf(),
            spec_created_supply(decimals) >= pow256() ==> r == Err::<Addr, FactoryError>(
                FactoryError::SupplyOverflow,
            ) && *final(self) == *old(self) && *final(ledger) == *old(ledger),
            spec_created_supply(decimals) < pow256() && (token_address.spec_is_zero() || old(self).spec_registry().spec_contains(token_address)) ==> r == Err::<Addr, FactoryError>(
                FactoryError::RegistrationRefused,
            ) && *final(self) == *old(self) && *final(ledger) == *old(ledger),
            spec_created_supply(decimals) < pow256() && !token_address.spec_is_zero() && !old(self).spec_registry().spec_contains(token_address) && old(ledger).spec_initialized() ==> r
                == Err::<Addr, FactoryError>(FactoryError::InitializationFailed) && *final(self)
                == *old(self) && *final(ledger) == *old(ledger),
            spec_created_supply(decimals) < pow256() && !token_address.spec_is_zero() && !old(self).spec_registry().spec_contains(token_address) && !old(ledger).spec_initialized()
                ==> {
                &&& r == Ok::<Addr, FactoryError>(token_address)
                &&& final(ledger).spec_initialized()
                &&& final(ledger).spec_name() == name@
                &&& final(ledger).spec_symbol() == symbol@
                &&& final(ledger).spec_decimals() == decimals
                &&& final(ledger).spec_owner() == caller
                &&& final(ledger).spec_total_supply() == spec_created_supply(decimals)
                &&& final(ledger).spec_balance_of(caller) == spec_created_supply(decimals)
                &&& final(ledger).spec_events() == old(ledger).spec_events()
                &&& final(self).spec_registry().spec_count() == old(self).spec_registry().spec_count()
                    + 1
                &&& final(self).spec_registry().spec_token_at(
                    final(self).spec_registry().spec_count() as int,
                ) == token_address
                &&& final(self).spec_registry().spec_contains(token_address)
                &&& final(self).spec_registry().spec_info(token_address) == (InfoView {
                    address: token_address,
                    metadata: MetadataView {
                        name: name@,
                        symbol: symbol@,
                        decimals,
                        total_supply: spec_created_supply(decimals) as nat,
                        owner: caller,
                        created_at: created_at.value(),
                    },
                    is_active: true,
                })
                &&& forall|b: Addr| b != token_address ==> #[trigger] final(self).spec_registry().spec_contains(b) == old(self).spec_registry().spec_contains(b)
                &&& forall|i: int| 1 <= i <= old(self).spec_registry().spec_count()
                    ==> #[trigger] final(self).spec_registry().spec_token_at(i) == old(self).spec_registry().spec_token_at(i)
            },
    {
        let supply = match compute_supply(decimals) {
            None => {
                return Err(FactoryError::SupplyOverflow);
            },
            Some(s) => s,
        };
        if token_address.is_zero() {
            return Err(FactoryError::RegistrationRefused);
        }
        let already = match self.registry.get_token_info(token_address) {
            Some(_) => true,
            None => false,
        };
        if already {
            return Err(FactoryError::RegistrationRefused);
        }
        match ledger.initialize(caller, copy_bytes(&name), copy_bytes(&symbol), decimals, supply) {
            Err(_) => {
                return Err(FactoryError::InitializationFailed);
            },
            Ok(()) => {},
        }
        let metadata = TokenMetadata {
            name,
            symbol,
            decimals,
            total_supply: supply,
            owner: caller,
            created_at,
        };
        match self.registry.register_token(token_address, metadata) {
            Ok(()) => Ok(token_address),
            Err(_) => {
                proof {
                    assert(false);
                }
                Err(FactoryError::RegistrationRefused)
            },
        }
    }

    /// How many tokens this factory has registered.
    pub fn get_token_count(&self) -> (r: usize)
        ensures
            r == self.spec_registry().spec_count(),
    {
        self.registry.get_token_count()
    }

    /// The address registered under `index`, or the zero sentinel when the
    /// index is out of range. Valid indices run from one to the count.
    pub fn get_token_by_index(&self, index: usize) -> (r: Addr)
        ensures
            1 <= index <= self.spec_registry().spec_count() ==> r
                == self.spec_registry().spec_token_at(index as int),
            !(1 <= index <= self.spec_registry().spec_count()) ==> r.spec_is_zero(),
    {
        match self.registry.get_token_by_index(index) {
            Some(a) => a,
            None => Addr::zero(),
        }
    }

    /// The metadata registered for `token_address`, or the "Unknown"
    /// placeholder when no token is registered under it.
    pub fn get_token_metadata(&self, token_address: Addr) -> (r: TokenMetadata)
        ensures
            self.spec_registry().spec_contains(token_address) ==> r@ == self.spec_registry(
            ).spec_info(token_address).metadata,
            !self.spec_registry().spec_contains(token_address) ==> r@ == spec_unknown_metadata(),
    {
        match self.registry.get_token_info(token_address) {
            Some(info) => info.metadata,
            None => TokenMetadata {
                name: vstd::slice::slice_to_vec("Unknown".as_bytes()),
                symbol: vstd::slice::slice_to_vec("UNK".as_bytes()),
                decimals: 18,
                total_supply: Amount::zero(),
                owner: Addr::zero(),
                created_at: Amount::zero(),
            },
        }
    }

    /// Whether a registered, active token stands at `token_address`.
    pub fn is_token(&self, token_address: Addr) -> (r: bool)
        ensures
            r == self.spec_registry().spec_is_active(token_address),
    {
        self.registry.is_token(token_address)
    }

}

} // verus!
