use metaverse_rocks::{remainder_after_storage, settle, share_of, RockError, Settlement};

#[test]
fn settlement_splits_remainder_between_treasury_and_owner() {
    let r = settle(1000, 100, 1, 1500, 500);
    assert_eq!(
        r,
        Ok(Settlement { remainder: 900, treasury_amount: 45, owner_amount: 855, refund: 500 })
    );
    let exact = settle(1000, 10, 10, 1000, 500).unwrap();
    assert_eq!((exact.remainder, exact.treasury_amount, exact.owner_amount, exact.refund), (900, 45, 855, 0));
}

#[test]
fn settlement_refuses_short_deposit() {
    assert_eq!(settle(1000, 0, 1, 999, 500), Err(RockError::InsufficientDeposit));
}

#[test]
fn settlement_keeps_storage_cost_first() {
    let r = settle(100, 200, 1, 100, 500).unwrap();
    assert_eq!(r, Settlement { remainder: 0, treasury_amount: 0, owner_amount: 0, refund: 0 });
    let huge = settle(100, u64::MAX, u128::MAX, 150, 500).unwrap();
    assert_eq!(huge, Settlement { remainder: 0, treasury_amount: 0, owner_amount: 0, refund: 50 });
}

#[test]
fn settlement_with_zero_fee_pays_owner_everything() {
    let r = settle(1000, 0, 5, 1000, 0).unwrap();
    assert_eq!(r, Settlement { remainder: 1000, treasury_amount: 0, owner_amount: 1000, refund: 0 });
    let free = settle(0, 40, 1, 25, 500).unwrap();
    assert_eq!(free, Settlement { remainder: 0, treasury_amount: 0, owner_amount: 0, refund: 25 });
}

#[test]
fn share_rounds_down_without_overflow() {
    assert_eq!(share_of(999, 500), 49);
    assert_eq!(share_of(u128::MAX, 10000), u128::MAX);
    assert_eq!(share_of(u128::MAX, 5000), u128::MAX / 2);
    assert_eq!(share_of(12345, 0), 0);
}

#[test]
fn remainder_after_storage_never_negative() {
    assert_eq!(remainder_after_storage(1000, 100, 1), 900);
    assert_eq!(remainder_after_storage(1000, 1000, 1), 0);
    assert_eq!(remainder_after_storage(1000, 2, u128::MAX), 0);
}
