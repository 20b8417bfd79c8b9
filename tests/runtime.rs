use ledger_runtime::runtime::{Runtime, RuntimeBlock};
use ledger_runtime::support::{Block, Extrinsic, Header};
use ledger_runtime::traits::Dispatch;
use ledger_runtime::types::{AccountId, Balance, BlockNumber, DispatchError, RuntimeCall};

fn acct(name: &str) -> AccountId {
    AccountId(name.to_string())
}

fn transfer_x(from: &str, to: &str, amount: u64) -> Extrinsic<AccountId, RuntimeCall> {
    Extrinsic {
        caller: acct(from),
        call: RuntimeCall::Transfer { to: acct(to), amount: Balance(amount) },
    }
}

fn block(number: u64, extrinsics: Vec<Extrinsic<AccountId, RuntimeCall>>) -> RuntimeBlock {
    Block { header: Header { block_number: BlockNumber(number) }, extrinsics }
}

fn bal(rt: &Runtime, name: &str) -> Option<u64> {
    rt.balance(&acct(name)).map(|b| b.0)
}

#[test]
fn new_runtime_is_empty() {
    let rt = Runtime::new();
    assert_eq!(rt.block_number(), BlockNumber(0));
    assert_eq!(bal(&rt, "alice"), None);
}

#[test]
fn alice_pays_bob_and_charlie() {
    let mut rt = Runtime::new();
    rt.set_balance(&acct("alice"), Balance(100));
    assert_eq!(rt.transfer(acct("alice"), acct("bob"), Balance(30)), Ok(()));
    assert_eq!(bal(&rt, "alice"), Some(70));
    assert_eq!(bal(&rt, "bob"), Some(30));
    assert_eq!(rt.transfer(acct("alice"), acct("charlie"), Balance(20)), Ok(()));
    assert_eq!(bal(&rt, "alice"), Some(50));
    assert_eq!(bal(&rt, "charlie"), Some(20));
    assert_eq!(
        rt.transfer(acct("alice"), acct("bob"), Balance(1000)),
        Err(DispatchError::InsufficientBalance)
    );
    assert_eq!(bal(&rt, "alice"), Some(50));
    assert_eq!(bal(&rt, "bob"), Some(30));
}

#[test]
fn unknown_sender_is_rejected() {
    let mut rt = Runtime::new();
    rt.set_balance(&acct("bob"), Balance(5));
    assert_eq!(
        rt.transfer(acct("eve"), acct("bob"), Balance(10)),
        Err(DispatchError::SenderNotFound)
    );
    assert_eq!(bal(&rt, "eve"), None);
    assert_eq!(bal(&rt, "bob"), Some(5));
}

#[test]
fn transfer_of_whole_balance_leaves_zero() {
    let mut rt = Runtime::new();
    rt.set_balance(&acct("alice"), Balance(40));
    assert_eq!(rt.transfer(acct("alice"), acct("bob"), Balance(40)), Ok(()));
    assert_eq!(bal(&rt, "alice"), Some(0));
    assert_eq!(bal(&rt, "bob"), Some(40));
}

#[test]
fn self_transfer_keeps_balance() {
    let mut rt = Runtime::new();
    rt.set_balance(&acct("alice"), Balance(100));
    assert_eq!(rt.transfer(acct("alice"), acct("alice"), Balance(60)), Ok(()));
    assert_eq!(bal(&rt, "alice"), Some(100));
    assert_eq!(rt.transfer(acct("alice"), acct("alice"), Balance(100)), Ok(()));
    assert_eq!(bal(&rt, "alice"), Some(100));
}

#[test]
fn self_transfer_beyond_balance_fails() {
    let mut rt = Runtime::new();
    rt.set_balance(&acct("alice"), Balance(10));
    assert_eq!(
        rt.transfer(acct("alice"), acct("alice"), Balance(11)),
        Err(DispatchError::InsufficientBalance)
    );
    assert_eq!(bal(&rt, "alice"), Some(10));
}

#[test]
fn credit_past_max_is_rejected() {
    let mut rt = Runtime::new();
    rt.set_balance(&acct("alice"), Balance(10));
    rt.set_balance(&acct("bob"), Balance(u64::MAX - 5));
    assert_eq!(
        rt.transfer(acct("alice"), acct("bob"), Balance(6)),
        Err(DispatchError::Overflow)
    );
    assert_eq!(bal(&rt, "alice"), Some(10));
    assert_eq!(bal(&rt, "bob"), Some(u64::MAX - 5));
    assert_eq!(rt.transfer(acct("alice"), acct("bob"), Balance(5)), Ok(()));
    assert_eq!(bal(&rt, "bob"), Some(u64::MAX));
    assert_eq!(bal(&rt, "alice"), Some(5));
}

#[test]
fn transfers_conserve_the_total() {
    let mut rt = Runtime::new();
    rt.set_balance(&acct("a"), Balance(50));
    rt.set_balance(&acct("b"), Balance(25));
    let _ = rt.transfer(acct("a"), acct("b"), Balance(10));
    let _ = rt.transfer(acct("b"), acct("c"), Balance(30));
    let _ = rt.transfer(acct("c"), acct("a"), Balance(100));
    let _ = rt.transfer(acct("d"), acct("a"), Balance(1));
    let _ = rt.transfer(acct("c"), acct("c"), Balance(7));
    let sum: u64 = ["a", "b", "c", "d"].iter().map(|n| bal(&rt, n).unwrap_or(0)).sum();
    assert_eq!(sum, 75);
    assert_eq!(bal(&rt, "a"), Some(40));
    assert_eq!(bal(&rt, "b"), Some(5));
    assert_eq!(bal(&rt, "c"), Some(30));
}

#[test]
fn set_balance_overwrites() {
    let mut rt = Runtime::new();
    rt.set_balance(&acct("alice"), Balance(100));
    rt.set_balance(&acct("alice"), Balance(0));
    assert_eq!(bal(&rt, "alice"), Some(0));
}

#[test]
fn block_number_counts_up() {
    let mut rt = Runtime::new();
    assert_eq!(rt.inc_block_number(), Ok(()));
    assert_eq!(rt.inc_block_number(), Ok(()));
    assert_eq!(rt.block_number(), BlockNumber(2));
}

#[test]
fn nonce_starts_at_one_and_grows() {
    let mut rt = Runtime::new();
    assert_eq!(rt.inc_nonce(&acct("alice")), Ok(()));
    assert_eq!(rt.inc_nonce(&acct("alice")), Ok(()));
    assert_eq!(rt.inc_nonce(&acct("bob")), Ok(()));
    assert_eq!(rt.nonce(&acct("alice")), Some(2));
    assert_eq!(rt.nonce(&acct("bob")), Some(1));
    assert_eq!(rt.nonce(&acct("carol")), None);
    // nonces are separate from balances
    assert_eq!(bal(&rt, "alice"), None);
}

#[test]
fn execute_block_continues_past_a_failure() {
    let mut rt = Runtime::new();
    rt.set_balance(&acct("alice"), Balance(100));
    let b = block(
        1,
        vec![
            transfer_x("alice", "bob", 30),
            transfer_x("eve", "bob", 10),
            transfer_x("alice", "charlie", 20),
        ],
    );
    assert_eq!(rt.execute_block(b), Ok(()));
    assert_eq!(rt.block_number(), BlockNumber(1));
    assert_eq!(bal(&rt, "alice"), Some(50));
    assert_eq!(bal(&rt, "bob"), Some(30));
    assert_eq!(bal(&rt, "charlie"), Some(20));
    assert_eq!(bal(&rt, "eve"), None);
}

#[test]
fn block_number_counts_executed_blocks() {
    let mut rt = Runtime::new();
    rt.set_balance(&acct("alice"), Balance(10));
    for k in 0..5u64 {
        let b = block(k + 1, vec![transfer_x("alice", "bob", 7), transfer_x("zed", "bob", 1)]);
        assert_eq!(rt.execute_block(b), Ok(()));
    }
    assert_eq!(rt.block_number(), BlockNumber(5));
    assert_eq!(bal(&rt, "alice"), Some(3));
    assert_eq!(bal(&rt, "bob"), Some(7));
}

#[test]
fn empty_block_advances_block_number() {
    let mut rt = Runtime::new();
    assert_eq!(rt.execute_block(block(1, vec![])), Ok(()));
    assert_eq!(rt.block_number(), BlockNumber(1));
}

#[test]
fn dispatch_routes_transfer() {
    let mut rt = Runtime::new();
    rt.set_balance(&acct("alice"), Balance(9));
    let call = RuntimeCall::Transfer { to: acct("bob"), amount: Balance(4) };
    assert_eq!(rt.dispatch(acct("alice"), call), Ok(()));
    assert_eq!(bal(&rt, "alice"), Some(5));
    assert_eq!(bal(&rt, "bob"), Some(4));
    let call = RuntimeCall::Transfer { to: acct("bob"), amount: Balance(6) };
    assert_eq!(rt.dispatch(acct("alice"), call), Err(DispatchError::InsufficientBalance));
}

#[test]
fn error_messages() {
    assert_eq!(DispatchError::SenderNotFound.message(), "Sender account not found");
    assert_eq!(DispatchError::InsufficientBalance.message(), "Insufficient balance");
    assert_eq!(DispatchError::Overflow.message(), "Arithmetic overflow");
}
