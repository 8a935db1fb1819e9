use metaverse_rocks::{
    gen_token_id, is_valid_account_id, Contract, ImoReceipt, RockError, Zone, ZONE_TYPE_HOLDER,
    ZONE_TYPE_OPERATOR, ZONE_TYPE_PUBLIC,
};

fn engine(init_imo_fee: u128) -> Contract {
    Contract::new(
        "admin.near".to_string(),
        "operator.near".to_string(),
        "treasury.near".to_string(),
        init_imo_fee,
        500,
        true,
    )
    .unwrap()
}

fn public_zone(index: u16, price: u128, from: u128, to: u128) -> Zone {
    Zone {
        zone_index: index,
        price,
        core_team_addr: String::new(),
        collection_addr: String::new(),
        type_zone: ZONE_TYPE_PUBLIC,
        rock_index_from: from,
        rock_index_to: to,
    }
}

fn holder_zone(index: u16, collection: &str, from: u128, to: u128) -> Zone {
    Zone {
        zone_index: index,
        price: 0,
        core_team_addr: String::new(),
        collection_addr: collection.to_string(),
        type_zone: ZONE_TYPE_HOLDER,
        rock_index_from: from,
        rock_index_to: to,
    }
}

#[test]
fn create_metaverse_counts_units_and_adds_operator_zone() {
    let mut c = engine(0);
    let r = c.init_metaverse(
        "m1".to_string(),
        "alice.near".to_string(),
        vec![public_zone(3, 100, 2, 5)],
        0,
    );
    assert_eq!(r, Ok(ImoReceipt { rock_size: 4, fee: 0, refund: 0 }));
    let op = c.get_zone_info(&"m1".to_string(), 1).unwrap();
    assert_eq!(op.type_zone, ZONE_TYPE_OPERATOR);
    assert_eq!(op.core_team_addr, "operator.near");
    assert_eq!((op.rock_index_from, op.rock_index_to, op.price), (1, 1, 0));
    assert_eq!(c.get_zone_info(&"m1".to_string(), 3), Ok(public_zone(3, 100, 2, 5)));
}

#[test]
fn create_metaverse_charges_fee_per_unit() {
    let mut c = engine(10);
    let r = c.init_metaverse(
        "m1".to_string(),
        "alice.near".to_string(),
        vec![public_zone(3, 100, 2, 5), public_zone(4, 7, 6, 6)],
        100,
    );
    assert_eq!(r, Ok(ImoReceipt { rock_size: 5, fee: 50, refund: 50 }));
}

#[test]
fn create_metaverse_refuses_short_deposit() {
    let mut c = engine(10);
    let r = c.init_metaverse("m1".to_string(), "a.near".to_string(), vec![public_zone(3, 100, 2, 5)], 39);
    assert_eq!(r, Err(RockError::InsufficientDeposit));
    assert_eq!(c.get_zone_info(&"m1".to_string(), 3), Err(RockError::NotFound));
}

#[test]
fn create_metaverse_refuses_duplicate_id() {
    let mut c = engine(0);
    c.init_metaverse("m1".to_string(), "a.near".to_string(), vec![], 0).unwrap();
    let r = c.init_metaverse("m1".to_string(), "b.near".to_string(), vec![public_zone(3, 1, 2, 2)], 0);
    assert_eq!(r, Err(RockError::DuplicateMetaverse));
    assert_eq!(c.get_zone_info(&"m1".to_string(), 3), Err(RockError::NotFound));
}

#[test]
fn create_metaverse_refuses_bad_geometry() {
    let mut c = engine(0);
    let bad = vec![
        vec![public_zone(3, 100, 5, 2)],
        vec![public_zone(3, 100, 0, 2)],
        vec![public_zone(3, 100, 1, 2)],
        vec![public_zone(1, 100, 2, 3)],
        vec![public_zone(3, 0, 2, 3)],
        vec![public_zone(3, 100, 2, 5), public_zone(4, 100, 5, 8)],
        vec![public_zone(3, 100, 2, 5), public_zone(3, 100, 6, 8)],
        vec![holder_zone(2, "", 2, 5)],
        vec![holder_zone(2, "a.near", 2, 5), holder_zone(4, "b.near", 6, 9)],
    ];
    for zones in bad {
        let r = c.init_metaverse("m1".to_string(), "a.near".to_string(), zones, 0);
        assert_eq!(r, Err(RockError::InvalidZone));
    }
    let mut ok = c.init_metaverse(
        "m1".to_string(),
        "a.near".to_string(),
        vec![holder_zone(2, "a.near", 2, 5), holder_zone(4, "a.near", 6, 9)],
        0,
    );
    assert!(ok.is_ok());
    ok = c.init_metaverse("m2".to_string(), "a.near".to_string(), vec![], 0);
    assert_eq!(ok, Ok(ImoReceipt { rock_size: 0, fee: 0, refund: 0 }));
}

#[test]
fn holder_zones_can_be_switched_off() {
    let mut c = Contract::new(
        "admin.near".to_string(),
        "operator.near".to_string(),
        "treasury.near".to_string(),
        0,
        0,
        false,
    )
    .unwrap();
    let r = c.init_metaverse("m1".to_string(), "a.near".to_string(), vec![holder_zone(2, "x.near", 2, 5)], 0);
    assert_eq!(r, Err(RockError::InvalidZone));
}

#[test]
fn new_refuses_fee_above_whole() {
    let r = Contract::new("a".to_string(), "b".to_string(), "c".to_string(), 0, 10_001, true);
    assert!(matches!(r, Err(RockError::InvalidFee)));
}

#[test]
fn add_zone_checks_owner_index_and_geometry() {
    let mut c = engine(2);
    let m1 = "m1".to_string();
    let owner = "alice.near".to_string();
    c.init_metaverse(m1.clone(), owner.clone(), vec![holder_zone(2, "nft.near", 2, 5)], 8).unwrap();
    assert_eq!(
        c.add_zone(&owner, &"nope".to_string(), public_zone(3, 10, 6, 9), 100),
        Err(RockError::NotFound)
    );
    assert_eq!(c.add_zone(&owner, &m1, public_zone(2, 10, 6, 9), 100), Err(RockError::ZoneIndexTaken));
    assert_eq!(
        c.add_zone(&"bob.near".to_string(), &m1, public_zone(3, 10, 6, 9), 100),
        Err(RockError::Unauthorized)
    );
    assert_eq!(c.add_zone(&owner, &m1, public_zone(3, 10, 5, 9), 100), Err(RockError::InvalidZone));
    assert_eq!(c.add_zone(&owner, &m1, holder_zone(3, "other.near", 6, 9), 100), Err(RockError::InvalidZone));
    assert_eq!(c.add_zone(&owner, &m1, public_zone(3, 10, 6, 9), 7), Err(RockError::InsufficientDeposit));
    assert_eq!(
        c.add_zone(&owner, &m1, public_zone(3, 10, 6, 9), 10),
        Ok(ImoReceipt { rock_size: 4, fee: 8, refund: 2 })
    );
    assert_eq!(c.get_zone_info(&m1, 3), Ok(public_zone(3, 10, 6, 9)));
    assert_eq!(
        c.add_zone(&owner, &m1, holder_zone(4, "nft.near", 10, 10), 2),
        Ok(ImoReceipt { rock_size: 1, fee: 2, refund: 0 })
    );
}

#[test]
fn zone_info_is_idempotent_until_price_change() {
    let mut c = engine(0);
    let m1 = "m1".to_string();
    let owner = "alice.near".to_string();
    c.init_metaverse(m1.clone(), owner.clone(), vec![holder_zone(2, "nft.near", 2, 5)], 0).unwrap();
    let first = c.get_zone_info(&m1, 2);
    let second = c.get_zone_info(&m1, 2);
    assert_eq!(first, second);
    c.mint_rock(&"operator.near".to_string(), &m1, 1, 1, &owner, 0, 0).unwrap();
    assert_eq!(c.get_zone_info(&m1, 2), first);
    assert_eq!(
        c.change_nft_collection_rock_price(&"bob.near".to_string(), 1, &m1, 2, 9),
        Err(RockError::Unauthorized)
    );
    assert_eq!(c.change_nft_collection_rock_price(&owner, 0, &m1, 2, 9), Err(RockError::InsufficientDeposit));
    assert_eq!(c.change_nft_collection_rock_price(&owner, 1, &m1, 1, 9), Err(RockError::InvalidZone));
    assert_eq!(c.change_nft_collection_rock_price(&owner, 1, &m1, 7, 9), Err(RockError::NotFound));
    assert_eq!(c.change_nft_collection_rock_price(&owner, 1, &m1, 2, 9), Ok(()));
    assert_eq!(c.get_zone_info(&m1, 2).unwrap().price, 9);
    assert_ne!(c.get_zone_info(&m1, 2), first);
}

#[test]
fn token_id_joins_parts_with_colons() {
    assert_eq!(gen_token_id(&"m1".to_string(), 3, 2), "m1:3:2");
    assert_eq!(gen_token_id(&"x".to_string(), 65535, 1234567890), "x:65535:1234567890");
    assert_eq!(
        gen_token_id(&"".to_string(), 0, u128::MAX),
        format!(":0:{}", u128::MAX)
    );
}

#[test]
fn account_ids_are_validated() {
    for ok in ["ab", "alice.near", "a-b_c.d", "0x12"] {
        assert!(is_valid_account_id(&ok.to_string()), "{}", ok);
    }
    for bad in ["", "a", "Alice.near", "a..b", ".ab", "ab.", "a b", &"a".repeat(65)] {
        assert!(!is_valid_account_id(&bad.to_string()), "{}", bad);
    }
}
