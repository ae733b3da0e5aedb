use token_standard::{TokenError, TokenState};

fn addr(s: &str) -> String {
    s.to_string()
}

#[test]
fn balances_add_up_to_supply_after_many_transfers() {
    let (alice, bob, carol) = (addr("alice"), addr("bob"), addr("carol"));
    let mut token = TokenState::new(alice.clone(), 1000);
    token.transfer(&alice, &bob, 300).unwrap();
    token.transfer(&bob, &carol, 120).unwrap();
    token.approve(&alice, &carol, 400).unwrap();
    token.transfer_from(&carol, &alice, &bob, 250).unwrap();
    assert!(token.transfer(&carol, &alice, 121).is_err());
    let sum = token.balance_of(&alice) + token.balance_of(&bob) + token.balance_of(&carol);
    assert_eq!(sum, token.total_supply());
    assert_eq!(token.balance_of(&alice), 450);
    assert_eq!(token.balance_of(&bob), 430);
    assert_eq!(token.balance_of(&carol), 120);
}

#[test]
fn unknown_address_and_pair_read_zero() {
    let (alice, bob) = (addr("alice"), addr("bob"));
    let mut token = TokenState::new(alice.clone(), 1000);
    assert_eq!(token.balance_of(&addr("nobody")), 0);
    assert_eq!(token.allowance(&alice, &bob), 0);
    token.approve(&alice, &bob, 70).unwrap();
    assert_eq!(token.allowance(&bob, &alice), 0);
}

#[test]
fn new_with_zero_supply() {
    let alice = addr("alice");
    let token = TokenState::new(alice.clone(), 0);
    assert_eq!(token.total_supply(), 0);
    assert_eq!(token.balance_of(&alice), 0);
}

#[test]
fn later_approval_replaces_earlier_one() {
    let (alice, bob) = (addr("alice"), addr("bob"));
    let mut token = TokenState::new(alice.clone(), 1000);
    token.approve(&alice, &bob, 100).unwrap();
    token.approve(&alice, &bob, 30).unwrap();
    assert_eq!(token.allowance(&alice, &bob), 30);
    token.approve(&alice, &bob, 0).unwrap();
    assert_eq!(token.allowance(&alice, &bob), 0);
}

#[test]
fn refused_calls_change_nothing() {
    let (alice, bob, carol) = (addr("alice"), addr("bob"), addr("carol"));
    let mut token = TokenState::new(alice.clone(), 100);
    token.approve(&alice, &bob, 60).unwrap();

    assert_eq!(token.transfer(&alice, &bob, 101), Err(TokenError::InsufficientBalance { required: 101, available: 100 }));
    assert_eq!(token.transfer_from(&bob, &alice, &carol, 61), Err(TokenError::InsufficientAllowance { required: 61, available: 60 }));
    assert_eq!(token.approve(&alice, &alice, 5), Err(TokenError::SelfApproval));
    assert_eq!(token.transfer_from(&bob, &alice, &alice, 10), Err(TokenError::SelfTransfer));
    assert_eq!(token.transfer_from(&bob, &alice, &carol, 0), Err(TokenError::ZeroAmount));

    assert_eq!(token.balance_of(&alice), 100);
    assert_eq!(token.balance_of(&bob), 0);
    assert_eq!(token.balance_of(&carol), 0);
    assert_eq!(token.allowance(&alice, &bob), 60);
    assert_eq!(token.allowance(&alice, &alice), 0);
}

#[test]
fn delegated_transfer_touches_only_its_own_allowance() {
    let (alice, bob, carol, dave) = (addr("alice"), addr("bob"), addr("carol"), addr("dave"));
    let mut token = TokenState::new(alice.clone(), 1000);
    token.transfer(&alice, &dave, 500).unwrap();
    token.approve(&alice, &bob, 100).unwrap();
    token.approve(&alice, &carol, 80).unwrap();
    token.approve(&dave, &bob, 40).unwrap();

    token.transfer_from(&bob, &alice, &carol, 35).unwrap();

    assert_eq!(token.allowance(&alice, &bob), 65);
    assert_eq!(token.allowance(&alice, &carol), 80);
    assert_eq!(token.allowance(&dave, &bob), 40);
    assert_eq!(token.balance_of(&alice), 465);
    assert_eq!(token.balance_of(&carol), 35);
}

#[test]
fn allowance_is_checked_before_balance() {
    let (alice, bob, carol) = (addr("alice"), addr("bob"), addr("carol"));
    let mut token = TokenState::new(alice.clone(), 10);
    token.approve(&alice, &bob, 5).unwrap();
    assert_eq!(
        token.transfer_from(&bob, &alice, &carol, 20),
        Err(TokenError::InsufficientAllowance { required: 20, available: 5 })
    );
}

#[test]
fn checks_run_in_order() {
    let (alice, bob) = (addr("alice"), addr("bob"));
    let mut token = TokenState::new(alice.clone(), 10);
    assert_eq!(token.transfer(&alice, &alice, 0), Err(TokenError::SelfTransfer));
    assert_eq!(token.transfer(&bob, &alice, 0), Err(TokenError::ZeroAmount));
    assert_eq!(token.transfer_from(&bob, &alice, &alice, 0), Err(TokenError::SelfTransfer));
}

#[test]
fn credit_up_to_the_maximum_then_overflow() {
    let (alice, bob) = (addr("alice"), addr("bob"));
    let mut token = TokenState::new(alice.clone(), 1000);
    token.mint_for_test(bob.clone(), u64::MAX - 100);
    token.transfer(&alice, &bob, 100).unwrap();
    assert_eq!(token.balance_of(&bob), u64::MAX);
    assert_eq!(token.transfer(&alice, &bob, 1), Err(TokenError::BalanceOverFlow));
    assert_eq!(token.balance_of(&alice), 900);
    assert_eq!(token.balance_of(&bob), u64::MAX);
}

#[test]
fn delegated_transfer_overflow_keeps_allowance() {
    let (alice, bob, carol) = (addr("alice"), addr("bob"), addr("carol"));
    let mut token = TokenState::new(alice.clone(), 1000);
    token.mint_for_test(carol.clone(), u64::MAX);
    token.approve(&alice, &bob, 100).unwrap();
    assert_eq!(token.transfer_from(&bob, &alice, &carol, 1), Err(TokenError::BalanceOverFlow));
    assert_eq!(token.allowance(&alice, &bob), 100);
    assert_eq!(token.balance_of(&alice), 1000);
}

#[test]
fn mint_sets_a_balance() {
    let (alice, bob) = (addr("alice"), addr("bob"));
    let mut token = TokenState::new(alice.clone(), 1000);
    token.mint_for_test(bob.clone(), 42);
    token.mint_for_test(alice.clone(), 7);
    assert_eq!(token.balance_of(&bob), 42);
    assert_eq!(token.balance_of(&alice), 7);
    assert_eq!(token.total_supply(), 1000);
}
