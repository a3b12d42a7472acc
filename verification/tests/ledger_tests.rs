use rally::ident::Identity;
use rally::ledger::{Ledger, LedgerError};

fn id(value: u64) -> Identity {
    Identity { value }
}

#[test]
fn mint_and_transfer_move_balances() {
    let mut l = Ledger::new();
    assert_eq!(l.balance_of(id(1)), 0);
    assert_eq!(l.mint(id(1), 100), Ok(()));
    assert_eq!(l.balance_of(id(1)), 100);
    assert_eq!(l.total_supply(), 100);
    assert_eq!(l.transfer(id(1), id(2), 30), Ok(()));
    assert_eq!(l.balance_of(id(1)), 70);
    assert_eq!(l.balance_of(id(2)), 30);
    assert_eq!(l.total_supply(), 100);
}

#[test]
fn transfer_insufficient_funds_changes_nothing() {
    let mut l = Ledger::new();
    assert_eq!(l.mint(id(1), 50), Ok(()));
    assert_eq!(l.transfer(id(1), id(2), 51), Err(LedgerError::InsufficientFunds));
    assert_eq!(l.balance_of(id(1)), 50);
    assert_eq!(l.balance_of(id(2)), 0);
}

#[test]
fn transfer_from_unknown_account_fails_unless_zero() {
    let mut l = Ledger::new();
    assert_eq!(l.transfer(id(9), id(2), 1), Err(LedgerError::InsufficientFunds));
    assert_eq!(l.transfer(id(9), id(2), 0), Ok(()));
    assert_eq!(l.balance_of(id(2)), 0);
}

#[test]
fn self_transfer_changes_nothing() {
    let mut l = Ledger::new();
    assert_eq!(l.mint(id(1), 40), Ok(()));
    assert_eq!(l.transfer(id(1), id(1), 40), Ok(()));
    assert_eq!(l.balance_of(id(1)), 40);
    assert_eq!(l.transfer(id(1), id(1), 41), Err(LedgerError::InsufficientFunds));
}

#[test]
fn mint_past_supply_cap_fails() {
    let mut l = Ledger::new();
    assert_eq!(l.mint(id(1), u64::MAX), Ok(()));
    assert_eq!(l.mint(id(2), 1), Err(LedgerError::SupplyExceeded));
    assert_eq!(l.balance_of(id(2)), 0);
    assert_eq!(l.total_supply(), u64::MAX);
}
