use remittance::remittance::{Error, Remittance};

const A: [u8; 32] = [1u8; 32];
const B: [u8; 32] = [2u8; 32];
const C: [u8; 32] = [3u8; 32];

fn funded(entries: &[([u8; 32], u128)], fees: u128) -> Remittance {
    Remittance::restore(&entries.to_vec(), fees)
}

#[test]
fn empty_ledger_refuses_transfer() {
    let mut l = Remittance::new();
    assert_eq!(l.transfer(A, B, 1), Err(Error::InsufficientBalance));
    assert_eq!(l.balance_of(&A), 0);
    assert_eq!(l.balance_of(&B), 0);
    assert_eq!(l.fees(), 0);
}

#[test]
fn transfer_takes_one_percent_fee() {
    let mut l = funded(&[(A, 1000)], 0);
    assert_eq!(l.transfer(A, B, 500), Ok(()));
    assert_eq!(l.balance_of(&A), 500);
    assert_eq!(l.balance_of(&B), 495);
    assert_eq!(l.fees(), 5);
}

#[test]
fn small_amount_has_no_fee() {
    let mut l = funded(&[(A, 50)], 0);
    assert_eq!(l.transfer(A, B, 50), Ok(()));
    assert_eq!(l.balance_of(&A), 0);
    assert_eq!(l.balance_of(&B), 50);
    assert_eq!(l.fees(), 0);
}

#[test]
fn self_transfer_costs_the_fee() {
    let mut l = funded(&[(A, 1000)], 0);
    assert_eq!(l.transfer(A, A, 300), Ok(()));
    assert_eq!(l.balance_of(&A), 997);
    assert_eq!(l.fees(), 3);
}

#[test]
fn second_transfer_sees_first_debit() {
    let mut l = funded(&[(A, 1000)], 0);
    assert_eq!(l.transfer(A, B, 600), Ok(()));
    assert_eq!(l.transfer(A, C, 600), Err(Error::InsufficientBalance));
    assert_eq!(l.balance_of(&A), 400);
    assert_eq!(l.balance_of(&B), 594);
    assert_eq!(l.balance_of(&C), 0);
    assert_eq!(l.fees(), 6);
}

fn total(l: &Remittance) -> u128 {
    l.balance_of(&A) + l.balance_of(&B) + l.balance_of(&C) + l.fees()
}

#[test]
fn transfers_conserve_value() {
    let mut l = funded(&[(A, 10_000), (B, 2_345)], 17);
    let before = total(&l);
    assert_eq!(before, 12_362);
    assert_eq!(l.transfer(A, B, 4_321), Ok(()));
    assert_eq!(l.transfer(B, C, 999), Ok(()));
    assert_eq!(l.transfer(C, C, 250), Ok(()));
    assert_eq!(l.transfer(C, A, 5_000), Err(Error::InsufficientBalance));
    assert_eq!(l.transfer(A, A, 0), Ok(()));
    assert_eq!(total(&l), before);
    assert_eq!(l.fees(), 17 + 43 + 9 + 2);
}

#[test]
fn drained_account_stays_at_zero() {
    let mut l = funded(&[(A, 250)], 0);
    assert_eq!(l.transfer(A, B, 250), Ok(()));
    assert_eq!(l.balance_of(&A), 0);
    assert_eq!(l.transfer(A, B, 1), Err(Error::InsufficientBalance));
    assert_eq!(l.balance_of(&A), 0);
    assert_eq!(l.balance_of(&B), 248);
}

#[test]
fn refused_transfer_changes_nothing() {
    let mut l = funded(&[(A, 100), (B, 7)], 3);
    assert_eq!(l.transfer(A, B, 101), Err(Error::InsufficientBalance));
    assert_eq!(l.balance_of(&A), 100);
    assert_eq!(l.balance_of(&B), 7);
    assert_eq!(l.balance_of(&C), 0);
    assert_eq!(l.fees(), 3);
}

#[test]
fn fee_rounds_down() {
    for (amount, fee) in [(99u128, 0u128), (100, 1), (199, 1), (200, 2), (12_345, 123)] {
        let mut l = funded(&[(A, amount)], 0);
        assert_eq!(l.transfer(A, B, amount), Ok(()));
        assert_eq!(l.fees(), fee);
        assert_eq!(l.balance_of(&B), amount - fee);
        assert_eq!(l.balance_of(&A), 0);
    }
}

#[test]
fn zero_amount_changes_nothing() {
    let mut l = Remittance::new();
    assert_eq!(l.transfer(A, B, 0), Ok(()));
    assert_eq!(l.balance_of(&A), 0);
    assert_eq!(l.balance_of(&B), 0);
    assert_eq!(l.fees(), 0);
    let mut m = funded(&[(A, 40), (B, 60)], 9);
    assert_eq!(m.transfer(B, A, 0), Ok(()));
    assert_eq!(m.balance_of(&A), 40);
    assert_eq!(m.balance_of(&B), 60);
    assert_eq!(m.fees(), 9);
}

#[test]
fn full_fee_pool_refuses_with_overflow() {
    let mut l = funded(&[(A, 1000)], u128::MAX - 4);
    assert_eq!(l.transfer(A, B, 500), Err(Error::Overflow));
    assert_eq!(l.balance_of(&A), 1000);
    assert_eq!(l.balance_of(&B), 0);
    assert_eq!(l.fees(), u128::MAX - 4);
    assert_eq!(l.transfer(A, B, 499), Ok(()));
    assert_eq!(l.fees(), u128::MAX);
}

#[test]
fn full_recipient_refuses_with_overflow() {
    let mut l = funded(&[(A, 1000), (B, u128::MAX - 100)], 0);
    assert_eq!(l.transfer(A, B, 500), Err(Error::Overflow));
    assert_eq!(l.balance_of(&A), 1000);
    assert_eq!(l.balance_of(&B), u128::MAX - 100);
    assert_eq!(l.fees(), 0);
}

#[test]
fn large_self_transfer_does_not_overflow() {
    let mut l = funded(&[(A, u128::MAX)], 0);
    assert_eq!(l.transfer(A, A, 1000), Ok(()));
    assert_eq!(l.balance_of(&A), u128::MAX - 10);
    assert_eq!(l.fees(), 10);
}

#[test]
fn restore_keeps_last_entry() {
    let l = funded(&[(A, 5), (B, 8), (A, 9)], 2);
    assert_eq!(l.balance_of(&A), 9);
    assert_eq!(l.balance_of(&B), 8);
    assert_eq!(l.balance_of(&C), 0);
    assert_eq!(l.fees(), 2);
}
