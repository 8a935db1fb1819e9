use metaverse_rocks::{Contract, MintReceipt, EventLogVariant, RockError, NFT_STANDARD_NAME};

fn engine() -> Contract {
    Contract::new(
        "admin.near".to_string(),
        "operator.near".to_string(),
        "treasury.near".to_string(),
        3,
        500,
        true,
    )
    .unwrap()
}

#[test]
fn admin_roles_change_only_by_admin() {
    let mut c = engine();
    let admin = "admin.near".to_string();
    assert_eq!(c.change_admin(&"x.near".to_string(), 1, "y.near".to_string()), Err(RockError::Unauthorized));
    assert_eq!(c.change_admin(&admin, 0, "y.near".to_string()), Err(RockError::InsufficientDeposit));
    assert_eq!(c.change_treasury(&admin, 1, "t2.near".to_string()), Ok(()));
    assert_eq!(c.get_treasury(), "t2.near");
    assert_eq!(c.change_operator(&admin, 1, "op2.near".to_string()), Ok(()));
    assert_eq!(c.get_operator(), "op2.near");
    assert_eq!(c.change_admin(&admin, 1, "new.near".to_string()), Ok(()));
    assert_eq!(c.get_admin(), "new.near");
    assert_eq!(c.change_treasury(&admin, 1, "t3.near".to_string()), Err(RockError::Unauthorized));
}

#[test]
fn fees_change_only_by_operator() {
    let mut c = engine();
    let op = "operator.near".to_string();
    assert_eq!(c.change_init_imo_fee(&"admin.near".to_string(), 1, 9), Err(RockError::Unauthorized));
    assert_eq!(c.change_init_imo_fee(&op, 1, 9), Ok(()));
    assert_eq!(c.get_init_imo_fee(), 9);
    assert_eq!(c.update_init_imo_fee(&op, 1, 11), Ok(()));
    assert_eq!(c.get_init_imo_fee(), 11);
    assert_eq!(c.change_rock_purchase_fee(&op, 1, 10_001), Err(RockError::InvalidFee));
    assert_eq!(c.change_rock_purchase_fee(&op, 1, 250), Ok(()));
    assert_eq!(c.rock_purchase_fee, 250);
}

#[test]
fn mint_event_names_receiver_and_unit() {
    let receipt = MintReceipt {
        token_id: "m1:3:2".to_string(),
        receiver_id: "b.near".to_string(),
        owner_id: "a.near".to_string(),
        price: 100,
        deposit: 100,
    };
    let log = receipt.mint_log();
    assert_eq!(log.standard, NFT_STANDARD_NAME);
    assert_eq!(log.version, "1.0.0");
    match log.event {
        EventLogVariant::NftMint(v) => {
            assert_eq!(v.len(), 1);
            assert_eq!(v[0].owner_id, "b.near");
            assert_eq!(v[0].token_ids, vec!["m1:3:2".to_string()]);
            assert!(v[0].memo.is_none());
        }
        other => panic!("{:?}", other),
    }
}

#[test]
fn engine_royalties_change_only_by_admin() {
    let mut c = engine();
    let table = metaverse_rocks::RoyaltyTable::new(vec![("a.near".to_string(), 1000)]).unwrap();
    assert_eq!(c.update_royalties(&"x.near".to_string(), 1, table), Err(RockError::Unauthorized));
    let table = metaverse_rocks::RoyaltyTable::new(vec![("a.near".to_string(), 1000)]).unwrap();
    assert_eq!(c.update_royalties(&"admin.near".to_string(), 1, table), Ok(()));
    let owner = Some("o.near".to_string());
    let p = c.nft_payout(&owner, 999, 5).unwrap().payout;
    assert_eq!(p, vec![("a.near".to_string(), 99), ("o.near".to_string(), 900)]);
    assert!(matches!(c.nft_transfer_payout(0, &owner, 999, 5), Err(RockError::Unauthorized)));
    assert!(matches!(c.nft_transfer_payout(1, &owner, 999, 0), Err(RockError::TooManyRecipients)));
}

#[test]
fn price_change_event_names_zone_and_price() {
    let log = metaverse_rocks::ImoChangeZonePrice::new(&"m1".to_string(), 2, 75);
    assert_eq!(log.metaverse_id, "m1");
    assert_eq!(log.zone_index, 2);
    assert_eq!(log.new_price, 75);
    assert!(log.memo.is_none());
}
