use metaverse_rocks::{EditionMint, EditionSale, RockError, RoyaltyTable};

fn sale() -> EditionSale {
    EditionSale { operator_id: "op.near".to_string(), max_supply: 3, token_price: 50 }
}

#[test]
fn editions_are_numbered_and_priced() {
    let s = sale();
    assert_eq!(
        s.nft_create(&"buyer.near".to_string(), 0, 0),
        Ok(EditionMint { token_id: "0".to_string(), price: 50, by_operator: false })
    );
    assert_eq!(
        s.nft_create(&"op.near".to_string(), 2, 1),
        Ok(EditionMint { token_id: "2".to_string(), price: 0, by_operator: true })
    );
    assert_eq!(s.nft_create(&"op.near".to_string(), 2, 0), Err(RockError::InsufficientDeposit));
    assert_eq!(s.nft_create(&"buyer.near".to_string(), 3, 100), Err(RockError::SupplyExhausted));
}

#[test]
fn edition_settlement_covers_storage_and_price() {
    let s = sale();
    let sold = s.nft_create(&"buyer.near".to_string(), 1, 80).unwrap();
    assert_eq!(sold.settle(10, 2, 80), Ok(60));
    assert_eq!(sold.settle(10, 2, 69), Err(RockError::InsufficientDeposit));
    assert_eq!(sold.settle(2, u128::MAX, u128::MAX), Err(RockError::InsufficientDeposit));
    let free = s.nft_create(&"op.near".to_string(), 1, 30).unwrap();
    assert_eq!(free.settle(10, 2, 30), Ok(0));
}

#[test]
fn edition_price_changes_only_by_operator() {
    let mut s = sale();
    assert_eq!(s.update_token_price(&"x.near".to_string(), 1, 9), Err(RockError::Unauthorized));
    assert_eq!(s.update_token_price(&"op.near".to_string(), 0, 9), Err(RockError::InsufficientDeposit));
    assert_eq!(s.update_token_price(&"op.near".to_string(), 1, 9), Ok(()));
    assert_eq!(s.token_price, 9);
}

#[test]
fn transfer_payout_needs_exactly_one_unit() {
    let t = RoyaltyTable::new(vec![("a.near".to_string(), 2500)]).unwrap();
    let owner = Some("o.near".to_string());
    assert!(matches!(t.nft_transfer_payout(0, &owner, 100, 5), Err(RockError::Unauthorized)));
    assert!(matches!(t.nft_transfer_payout(2, &owner, 100, 5), Err(RockError::Unauthorized)));
    let p = t.nft_transfer_payout(1, &owner, 100, 5).unwrap().payout;
    assert_eq!(p, vec![("a.near".to_string(), 25), ("o.near".to_string(), 75)]);
}
