use token_core::addr::Addr;
use token_core::amount::Amount;
use token_core::errors::FactoryError;
use token_core::factory::TokenFactory;
use token_core::ledger::Ledger;

#[test]
fn fresh_factory_has_no_tokens() {
    let f = TokenFactory::new();
    assert_eq!(f.get_token_count(), 0);
    assert!(!f.is_token(Addr::from_u64(1)));
    assert!(f.get_token_by_index(1).is_zero());
}

#[test]
fn create_token_initializes_and_registers() {
    let mut f = TokenFactory::new();
    let mut l = Ledger::new();
    let token = Addr::from_u64(77);
    let caller = Addr::from_u64(9);
    let r = f.create_token(
        &mut l,
        token,
        caller,
        b"Token".to_vec(),
        b"TOK".to_vec(),
        6,
        Amount::from_u64(123),
    );
    assert_eq!(r, Ok(token));
    assert!(l.is_initialized_public());
    assert_eq!(l.name().unwrap(), b"Token".to_vec());
    assert_eq!(l.symbol().unwrap(), b"TOK".to_vec());
    assert_eq!(l.decimals().unwrap(), 6);
    let supply = Amount::from_u64(1_000_000_000_000);
    assert_eq!(l.total_supply().unwrap(), supply);
    assert_eq!(l.balance_of(caller).unwrap(), supply);
    assert_eq!(f.get_token_count(), 1);
    assert_eq!(f.get_token_by_index(1), token);
    assert!(f.is_token(token));
    let m = f.get_token_metadata(token);
    assert_eq!(m.name, b"Token".to_vec());
    assert_eq!(m.symbol, b"TOK".to_vec());
    assert_eq!(m.decimals, 6);
    assert_eq!(m.total_supply, supply);
    assert_eq!(m.owner, caller);
    assert_eq!(m.created_at, Amount::from_u64(123));
}

#[test]
fn create_token_with_zero_address_is_refused() {
    let mut f = TokenFactory::new();
    let mut l = Ledger::new();
    let r = f.create_token(
        &mut l,
        Addr::zero(),
        Addr::from_u64(9),
        b"Token".to_vec(),
        b"TOK".to_vec(),
        6,
        Amount::zero(),
    );
    assert_eq!(r, Err(FactoryError::RegistrationRefused));
    assert!(!l.is_initialized_public());
    assert_eq!(f.get_token_count(), 0);
}

#[test]
fn create_token_at_a_taken_address_is_refused_before_initializing() {
    let mut f = TokenFactory::new();
    let mut first = Ledger::new();
    let token = Addr::from_u64(77);
    f.create_token(
        &mut first,
        token,
        Addr::from_u64(9),
        b"Token".to_vec(),
        b"TOK".to_vec(),
        6,
        Amount::zero(),
    )
    .unwrap();
    let mut second = Ledger::new();
    let r = f.create_token(
        &mut second,
        token,
        Addr::from_u64(10),
        b"Other".to_vec(),
        b"OTH".to_vec(),
        6,
        Amount::zero(),
    );
    assert_eq!(r, Err(FactoryError::RegistrationRefused));
    assert!(!second.is_initialized_public());
    assert_eq!(f.get_token_count(), 1);
}

#[test]
fn create_token_on_an_initialized_ledger_fails_without_registering() {
    let mut f = TokenFactory::new();
    let mut l = Ledger::new();
    l.initialize(
        Addr::from_u64(1),
        b"Early".to_vec(),
        b"EAR".to_vec(),
        18,
        Amount::from_u64(5),
    )
    .unwrap();
    let r = f.create_token(
        &mut l,
        Addr::from_u64(77),
        Addr::from_u64(9),
        b"Token".to_vec(),
        b"TOK".to_vec(),
        6,
        Amount::zero(),
    );
    assert_eq!(r, Err(FactoryError::InitializationFailed));
    assert_eq!(f.get_token_count(), 0);
    assert_eq!(l.total_supply().unwrap(), Amount::from_u64(5));
}

#[test]
fn create_token_with_too_many_decimals_overflows() {
    let mut f = TokenFactory::new();
    let mut l = Ledger::new();
    let r = f.create_token(
        &mut l,
        Addr::from_u64(77),
        Addr::from_u64(9),
        b"Token".to_vec(),
        b"TOK".to_vec(),
        255,
        Amount::zero(),
    );
    assert_eq!(r, Err(FactoryError::SupplyOverflow));
    assert!(!l.is_initialized_public());
    assert_eq!(f.get_token_count(), 0);
}

#[test]
fn zero_decimals_give_a_plain_million() {
    let mut f = TokenFactory::new();
    let mut l = Ledger::new();
    let r = f.create_token(
        &mut l,
        Addr::from_u64(77),
        Addr::from_u64(9),
        b"Token".to_vec(),
        b"TOK".to_vec(),
        0,
        Amount::zero(),
    );
    assert!(r.is_ok());
    assert_eq!(l.total_supply().unwrap(), Amount::from_u64(1_000_000));
}

#[test]
fn metadata_of_an_unknown_address_is_the_placeholder() {
    let f = TokenFactory::new();
    let m = f.get_token_metadata(Addr::from_u64(5));
    assert_eq!(m.name, b"Unknown".to_vec());
    assert_eq!(m.symbol, b"UNK".to_vec());
    assert_eq!(m.decimals, 18);
    assert_eq!(m.total_supply, Amount::zero());
    assert_eq!(m.owner, Addr::zero());
    assert_eq!(m.created_at, Amount::zero());
}

#[test]
fn deactivated_tokens_stay_enumerable_through_the_factory() {
    let mut f = TokenFactory::new();
    let mut l = Ledger::new();
    let token = Addr::from_u64(77);
    f.create_token(
        &mut l,
        token,
        Addr::from_u64(9),
        b"Token".to_vec(),
        b"TOK".to_vec(),
        2,
        Amount::zero(),
    )
    .unwrap();
    assert!(f.is_token(token));
    assert_eq!(f.get_token_by_index(1), token);
    assert!(f.get_token_by_index(2).is_zero());
}
