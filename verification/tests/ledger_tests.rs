use token_core::addr::Addr;
use token_core::amount::Amount;
use token_core::errors::TokenError;
use token_core::events::Event;
use token_core::ledger::Ledger;

fn initialized_ledger(owner: Addr, supply: u64) -> Ledger {
    let mut l = Ledger::new();
    l.initialize(owner, b"Token".to_vec(), b"TOK".to_vec(), 18, Amount::from_u64(supply))
        .unwrap();
    l
}

#[test]
fn fresh_ledger_is_uninitialized() {
    let l = Ledger::new();
    assert!(!l.is_initialized_public());
    assert!(matches!(l.ensure_initialized(), Err(TokenError::NotInitialized)));
    assert!(matches!(l.balance_of(Addr::from_u64(1)), Err(TokenError::NotInitialized)));
    assert!(matches!(
        l.allowance(Addr::from_u64(1), Addr::from_u64(2)),
        Err(TokenError::NotInitialized)
    ));
    assert!(matches!(l.name(), Err(TokenError::NotInitialized)));
    assert!(matches!(l.symbol(), Err(TokenError::NotInitialized)));
    assert!(matches!(l.decimals(), Err(TokenError::NotInitialized)));
    assert!(matches!(l.total_supply(), Err(TokenError::NotInitialized)));
}

#[test]
fn mutations_fail_before_initialization() {
    let mut l = Ledger::new();
    let a = Addr::from_u64(1);
    let b = Addr::from_u64(2);
    assert!(matches!(
        l.transfer(a, b, Amount::from_u64(1)),
        Err(TokenError::NotInitialized)
    ));
    assert!(matches!(
        l.approve(a, b, Amount::from_u64(1)),
        Err(TokenError::NotInitialized)
    ));
    assert!(matches!(
        l.transfer_from(b, a, b, Amount::from_u64(1)),
        Err(TokenError::NotInitialized)
    ));
}

#[test]
fn initialize_credits_whole_supply_to_caller() {
    let owner = Addr::from_u64(1);
    let l = initialized_ledger(owner, 1000);
    assert!(l.is_initialized_public());
    assert_eq!(l.balance_of(owner).unwrap(), Amount::from_u64(1000));
    assert_eq!(l.balance_of(Addr::from_u64(2)).unwrap(), Amount::zero());
    assert_eq!(l.total_supply().unwrap(), Amount::from_u64(1000));
    assert_eq!(l.name().unwrap(), b"Token".to_vec());
    assert_eq!(l.symbol().unwrap(), b"TOK".to_vec());
    assert_eq!(l.decimals().unwrap(), 18);
}

#[test]
fn second_initialize_fails_and_never_doubles_supply() {
    let owner = Addr::from_u64(1);
    let mut l = initialized_ledger(owner, 1000);
    let r = l.initialize(
        Addr::from_u64(2),
        b"Other".to_vec(),
        b"OTH".to_vec(),
        6,
        Amount::from_u64(5000),
    );
    assert!(matches!(r, Err(TokenError::AlreadyInitialized)));
    assert_eq!(l.total_supply().unwrap(), Amount::from_u64(1000));
    assert_eq!(l.balance_of(owner).unwrap(), Amount::from_u64(1000));
    assert_eq!(l.balance_of(Addr::from_u64(2)).unwrap(), Amount::zero());
    assert_eq!(l.name().unwrap(), b"Token".to_vec());
}

#[test]
fn transfer_moves_the_amount() {
    let a = Addr::from_u64(1);
    let b = Addr::from_u64(2);
    let mut l = initialized_ledger(a, 1000);
    l.transfer(a, b, Amount::from_u64(300)).unwrap();
    assert_eq!(l.balance_of(a).unwrap(), Amount::from_u64(700));
    assert_eq!(l.balance_of(b).unwrap(), Amount::from_u64(300));
}

#[test]
fn transfer_beyond_balance_fails_and_changes_nothing() {
    let a = Addr::from_u64(1);
    let b = Addr::from_u64(2);
    let mut l = initialized_ledger(a, 1000);
    let r = l.transfer(a, b, Amount::from_u64(1001));
    assert!(matches!(r, Err(TokenError::InsufficientBalance)));
    assert_eq!(l.balance_of(a).unwrap(), Amount::from_u64(1000));
    assert_eq!(l.balance_of(b).unwrap(), Amount::zero());
    let r2 = l.transfer(b, a, Amount::from_u64(1));
    assert!(matches!(r2, Err(TokenError::InsufficientBalance)));
}

#[test]
fn self_transfer_is_net_neutral() {
    let a = Addr::from_u64(1);
    let mut l = initialized_ledger(a, 1000);
    l.transfer(a, a, Amount::from_u64(400)).unwrap();
    assert_eq!(l.balance_of(a).unwrap(), Amount::from_u64(1000));
    let r = l.transfer(a, a, Amount::from_u64(1001));
    assert!(matches!(r, Err(TokenError::InsufficientBalance)));
}

#[test]
fn transfers_conserve_the_sum_of_balances() {
    let a = Addr::from_u64(1);
    let b = Addr::from_u64(2);
    let c = Addr::from_u64(3);
    let mut l = initialized_ledger(a, 1000);
    l.transfer(a, b, Amount::from_u64(250)).unwrap();
    l.transfer(a, c, Amount::from_u64(150)).unwrap();
    l.transfer(b, c, Amount::from_u64(100)).unwrap();
    l.transfer(c, a, Amount::from_u64(50)).unwrap();
    let ba = l.balance_of(a).unwrap();
    let bb = l.balance_of(b).unwrap();
    let bc = l.balance_of(c).unwrap();
    let sum = ba.checked_add(bb).unwrap().checked_add(bc).unwrap();
    assert_eq!(sum, l.total_supply().unwrap());
    assert_eq!(ba, Amount::from_u64(650));
    assert_eq!(bb, Amount::from_u64(150));
    assert_eq!(bc, Amount::from_u64(200));
}

#[test]
fn approve_overwrites_instead_of_adding() {
    let a = Addr::from_u64(1);
    let b = Addr::from_u64(2);
    let mut l = initialized_ledger(a, 1000);
    l.approve(a, b, Amount::from_u64(700)).unwrap();
    assert_eq!(l.allowance(a, b).unwrap(), Amount::from_u64(700));
    l.approve(a, b, Amount::from_u64(40)).unwrap();
    assert_eq!(l.allowance(a, b).unwrap(), Amount::from_u64(40));
}

#[test]
fn transfer_from_consumes_allowance_and_balance() {
    let a = Addr::from_u64(1);
    let b = Addr::from_u64(2);
    let c = Addr::from_u64(3);
    let mut l = initialized_ledger(a, 1000);
    l.approve(a, b, Amount::from_u64(500)).unwrap();
    l.transfer_from(b, a, c, Amount::from_u64(300)).unwrap();
    assert_eq!(l.allowance(a, b).unwrap(), Amount::from_u64(200));
    assert_eq!(l.balance_of(a).unwrap(), Amount::from_u64(700));
    assert_eq!(l.balance_of(c).unwrap(), Amount::from_u64(300));
}

#[test]
fn transfer_from_beyond_allowance_fails_and_changes_nothing() {
    let a = Addr::from_u64(1);
    let b = Addr::from_u64(2);
    let c = Addr::from_u64(3);
    let mut l = initialized_ledger(a, 1000);
    l.approve(a, b, Amount::from_u64(100)).unwrap();
    let r = l.transfer_from(b, a, c, Amount::from_u64(101));
    assert!(matches!(r, Err(TokenError::InsufficientAllowance)));
    assert_eq!(l.allowance(a, b).unwrap(), Amount::from_u64(100));
    assert_eq!(l.balance_of(a).unwrap(), Amount::from_u64(1000));
    assert_eq!(l.balance_of(c).unwrap(), Amount::zero());
}

#[test]
fn transfer_from_beyond_balance_fails_and_changes_nothing() {
    let a = Addr::from_u64(1);
    let b = Addr::from_u64(2);
    let c = Addr::from_u64(3);
    let mut l = initialized_ledger(a, 100);
    l.approve(a, b, Amount::from_u64(500)).unwrap();
    let r = l.transfer_from(b, a, c, Amount::from_u64(200));
    assert!(matches!(r, Err(TokenError::InsufficientBalance)));
    assert_eq!(l.allowance(a, b).unwrap(), Amount::from_u64(500));
    assert_eq!(l.balance_of(a).unwrap(), Amount::from_u64(100));
    assert_eq!(l.balance_of(c).unwrap(), Amount::zero());
}

#[test]
fn scenario_supply_allowance_round_trip() {
    let a = Addr::from_u64(1);
    let b = Addr::from_u64(2);
    let c = Addr::from_u64(3);
    let mut l = Ledger::new();
    l.initialize(a, b"Token".to_vec(), b"TOK".to_vec(), 18, Amount::from_u64(1000))
        .unwrap();
    l.transfer(a, b, Amount::from_u64(300)).unwrap();
    assert_eq!(l.balance_of(a).unwrap(), Amount::from_u64(700));
    assert_eq!(l.balance_of(b).unwrap(), Amount::from_u64(300));
    l.approve(a, b, Amount::from_u64(300)).unwrap();
    l.transfer_from(b, a, c, Amount::from_u64(300)).unwrap();
    assert_eq!(l.balance_of(a).unwrap(), Amount::from_u64(400));
    assert_eq!(l.balance_of(c).unwrap(), Amount::from_u64(300));
    assert_eq!(l.allowance(a, b).unwrap(), Amount::zero());
}

#[test]
fn events_record_each_successful_mutation() {
    let a = Addr::from_u64(1);
    let b = Addr::from_u64(2);
    let c = Addr::from_u64(3);
    let mut l = initialized_ledger(a, 1000);
    l.transfer(a, b, Amount::from_u64(300)).unwrap();
    l.approve(a, b, Amount::from_u64(200)).unwrap();
    l.transfer_from(b, a, c, Amount::from_u64(150)).unwrap();
    let _ = l.transfer(a, b, Amount::from_u64(100_000));
    let events = l.drain_events();
    assert_eq!(
        events,
        vec![
            Event::Transfer { from: a, to: b, value: Amount::from_u64(300) },
            Event::Approval { owner: a, spender: b, value: Amount::from_u64(200) },
            Event::Transfer { from: a, to: c, value: Amount::from_u64(150) },
        ]
    );
    let mut l2 = l;
    l2.transfer(b, a, Amount::from_u64(1)).unwrap();
    let events2 = l2.drain_events();
    assert_eq!(
        events2,
        vec![Event::Transfer { from: b, to: a, value: Amount::from_u64(1) }]
    );
}

#[test]
fn large_amounts_transfer_without_wraparound() {
    let a = Addr::from_u64(1);
    let b = Addr::from_u64(2);
    let supply = Amount { l0: u64::MAX, l1: u64::MAX, l2: u64::MAX, l3: u64::MAX };
    let mut l = Ledger::new();
    l.initialize(a, b"Big".to_vec(), b"BIG".to_vec(), 18, supply).unwrap();
    let half = Amount { l0: u64::MAX, l1: u64::MAX, l2: u64::MAX, l3: u64::MAX >> 1 };
    l.transfer(a, b, half).unwrap();
    assert_eq!(l.balance_of(b).unwrap(), half);
    assert_eq!(
        l.balance_of(a).unwrap(),
        Amount { l0: 0, l1: 0, l2: 0, l3: 1 << 63 }
    );
    let r = l.transfer(a, b, supply);
    assert!(matches!(r, Err(TokenError::InsufficientBalance)));
}
