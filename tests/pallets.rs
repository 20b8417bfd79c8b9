use ledger_runtime::balances;
use ledger_runtime::system;
use ledger_runtime::types::{AccountId, Balance, BlockNumber, DispatchError};

fn acct(name: &str) -> AccountId {
    AccountId(name.to_string())
}

#[test]
fn ledger_get_and_set() {
    let mut p = balances::Pallet::new();
    assert_eq!(p.get_balance(&acct("a")), None);
    p.set_balance(&acct("a"), Balance(3));
    p.set_balance(&acct("b"), Balance(4));
    p.set_balance(&acct("a"), Balance(8));
    assert_eq!(p.get_balance(&acct("a")), Some(Balance(8)));
    assert_eq!(p.get_balance(&acct("b")), Some(Balance(4)));
}

#[test]
fn ledger_transfer_creates_recipient() {
    let mut p = balances::Pallet::new();
    p.set_balance(&acct("a"), Balance(3));
    assert_eq!(p.transfer(&acct("a"), &acct("z"), Balance(2)), Ok(()));
    assert_eq!(p.get_balance(&acct("a")), Some(Balance(1)));
    assert_eq!(p.get_balance(&acct("z")), Some(Balance(2)));
    assert_eq!(p.transfer(&acct("q"), &acct("z"), Balance(0)), Err(DispatchError::SenderNotFound));
}

#[test]
fn system_block_number_and_nonces() {
    let mut s = system::Pallet::new();
    assert_eq!(s.block_number(), BlockNumber(0));
    assert_eq!(s.increment_block_number(), Ok(()));
    assert_eq!(s.block_number(), BlockNumber(1));
    assert_eq!(s.get_nonce(&acct("a")), None);
    s.update_nonce(acct("a"), 4);
    assert_eq!(s.get_nonce(&acct("a")), Some(4));
    s.update_nonce(acct("a"), 9);
    assert_eq!(s.get_nonce(&acct("a")), Some(9));
}

#[test]
fn update_nonce_stores_largest_value() {
    let mut s = system::Pallet::new();
    s.update_nonce(acct("a"), u64::MAX);
    assert_eq!(s.get_nonce(&acct("a")), Some(u64::MAX));
}
