use lottery_pool::errors::TokenError;
use lottery_pool::token::MockUSDC;

fn fresh_token() -> MockUSDC {
    let mut token = MockUSDC::new();
    token.initialize(1, true).unwrap();
    token
}

#[test]
fn initialize_sets_admin_and_zero_supply() {
    let token = fresh_token();
    assert_eq!(token.total_supply, 0);
    assert_eq!(token.balance(1), 0);
}

#[test]
fn token_initialize_requires_authorization() {
    let mut token = MockUSDC::new();
    assert_eq!(token.initialize(1, false), Err(TokenError::Unauthorized));
}

#[test]
fn mint_credits_account_and_supply() {
    let mut token = fresh_token();
    token.mint(10, 1_000, true).unwrap();
    token.mint(11, 250, true).unwrap();
    token.mint(10, 500, true).unwrap();
    assert_eq!(token.balance(10), 1_500);
    assert_eq!(token.balance(11), 250);
    assert_eq!(token.balance(12), 0);
    assert_eq!(token.total_supply, 1_750);
}

#[test]
fn mint_requires_initialization() {
    let mut token = MockUSDC::new();
    assert_eq!(token.mint(10, 1_000, true), Err(TokenError::NotInitialized));
}

#[test]
fn mint_requires_admin_authorization() {
    let mut token = fresh_token();
    assert_eq!(token.mint(10, 1_000, false), Err(TokenError::Unauthorized));
    assert_eq!(token.balance(10), 0);
}

#[test]
fn transfer_moves_funds() {
    let mut token = fresh_token();
    token.mint(10, 1_000, true).unwrap();
    token.transfer(10, 11, 400, true).unwrap();
    assert_eq!(token.balance(10), 600);
    assert_eq!(token.balance(11), 400);
    assert_eq!(token.total_supply, 1_000);
}

#[test]
fn transfer_requires_authorization() {
    let mut token = fresh_token();
    token.mint(10, 1_000, true).unwrap();
    assert_eq!(token.transfer(10, 11, 400, false), Err(TokenError::Unauthorized));
    assert_eq!(token.balance(10), 1_000);
}

#[test]
fn transfer_rejects_insufficient_balance() {
    let mut token = fresh_token();
    token.mint(10, 300, true).unwrap();
    assert_eq!(token.transfer(10, 11, 400, true), Err(TokenError::InsufficientBalance));
    assert_eq!(token.balance(10), 300);
    assert_eq!(token.balance(11), 0);
}

#[test]
fn transfer_to_self_changes_nothing() {
    let mut token = fresh_token();
    token.mint(10, 300, true).unwrap();
    token.transfer(10, 10, 200, true).unwrap();
    assert_eq!(token.balance(10), 300);
    assert_eq!(token.total_supply, 300);
}

#[test]
fn metadata_is_fixed() {
    let token = fresh_token();
    assert_eq!(token.decimals(), 7);
    assert_eq!(token.name(), "Mock USDC");
    assert_eq!(token.symbol(), "USDC");
}
