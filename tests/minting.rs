use metaverse_rocks::{
    decode_reply, Contract, MintReceipt, MintStep, QueryOutcome, QueryReply, RockError, Zone,
    GAS_FOR_COMMON_OPERATIONS, GAS_FOR_DISPATCH, ZONE_TYPE_HOLDER, ZONE_TYPE_PUBLIC,
};

const GAS: u64 = 100_000_000_000_000;

fn engine() -> Contract {
    Contract::new(
        "admin.near".to_string(),
        "operator.near".to_string(),
        "treasury.near".to_string(),
        0,
        500,
        true,
    )
    .unwrap()
}

fn public_zone(index: u16, price: u128, from: u128, to: u128) -> Zone {
    Zone {
        zone_index: index,
        price,
        core_team_addr: String::new(),
        collection_addr: String::new(),
        type_zone: ZONE_TYPE_PUBLIC,
        rock_index_from: from,
        rock_index_to: to,
    }
}

fn holder_zone(index: u16, from: u128, to: u128) -> Zone {
    Zone {
        zone_index: index,
        price: 0,
        core_team_addr: String::new(),
        collection_addr: "nft.near".to_string(),
        type_zone: ZONE_TYPE_HOLDER,
        rock_index_from: from,
        rock_index_to: to,
    }
}

fn s(x: &str) -> String {
    x.to_string()
}

fn tokens_json(ids: &[&str]) -> Vec<u8> {
    let items: Vec<String> = ids
        .iter()
        .map(|id| {
            format!(
                "{{\"token_id\":\"{}\",\"owner_id\":\"alice.near\",\"metadata\":null,\"approved_account_ids\":null}}",
                id
            )
        })
        .collect();
    format!("[{}]", items.join(",")).into_bytes()
}

fn dispatch(c: &mut Contract, rock_index: u128) -> u64 {
    match c.mint_rock(&s("alice.near"), &s("m1"), 2, rock_index, &s("bob.near"), 0, GAS) {
        Ok(MintStep::Dispatched(p)) => p.ticket,
        other => panic!("expected a dispatch, got {:?}", other),
    }
}

#[test]
fn public_mint_creates_unit_id_and_records_it() {
    let mut c = engine();
    c.init_metaverse(s("m1"), s("a.near"), vec![public_zone(3, 100, 2, 5)], 0).unwrap();
    let r = c.mint_rock(&s("b.near"), &s("m1"), 3, 2, &s("b.near"), 100, 0);
    assert_eq!(
        r,
        Ok(MintStep::Minted(MintReceipt {
            token_id: s("m1:3:2"),
            receiver_id: s("b.near"),
            owner_id: s("a.near"),
            price: 100,
            deposit: 100,
        }))
    );
    assert_eq!(c.metaverses[0].tokens_minted, vec![s("m1:3:2")]);
}

#[test]
fn mint_outside_range_fails_and_leaves_minted_set() {
    let mut c = engine();
    c.init_metaverse(s("m1"), s("a.near"), vec![public_zone(3, 100, 2, 5)], 0).unwrap();
    for rock in [0u128, 1, 6, u128::MAX] {
        let r = c.mint_rock(&s("b.near"), &s("m1"), 3, rock, &s("b.near"), 1000, GAS);
        assert_eq!(r, Err(RockError::OutOfRange));
    }
    assert!(c.metaverses[0].tokens_minted.is_empty());
}

#[test]
fn same_triple_mints_only_once() {
    let mut c = engine();
    c.init_metaverse(s("m1"), s("a.near"), vec![public_zone(3, 100, 2, 5)], 0).unwrap();
    assert!(c.mint_rock(&s("b.near"), &s("m1"), 3, 4, &s("b.near"), 100, 0).is_ok());
    let again = c.mint_rock(&s("c.near"), &s("m1"), 3, 4, &s("c.near"), 500, 0);
    assert_eq!(again, Err(RockError::AlreadyMinted));
    assert_eq!(c.metaverses[0].tokens_minted, vec![s("m1:3:4")]);
}

#[test]
fn mint_reports_each_synchronous_error() {
    let mut c = engine();
    c.init_metaverse(s("m1"), s("a.near"), vec![public_zone(3, 100, 2, 5)], 0).unwrap();
    assert_eq!(
        c.mint_rock(&s("b.near"), &s("m9"), 3, 2, &s("b.near"), 100, 0),
        Err(RockError::NotFound)
    );
    assert_eq!(
        c.mint_rock(&s("b.near"), &s("m1"), 4, 2, &s("b.near"), 100, 0),
        Err(RockError::NotFound)
    );
    assert_eq!(
        c.mint_rock(&s("b.near"), &s("m1"), 3, 2, &s("b.near"), 99, 0),
        Err(RockError::InsufficientDeposit)
    );
    assert_eq!(
        c.mint_rock(&s("b.near"), &s("m1"), 1, 1, &s("b.near"), 0, 0),
        Err(RockError::Unauthorized)
    );
    let op = c.mint_rock(&s("operator.near"), &s("m1"), 1, 1, &s("x.near"), 7, 0);
    assert_eq!(
        op,
        Ok(MintStep::Minted(MintReceipt {
            token_id: s("m1:1:1"),
            receiver_id: s("x.near"),
            owner_id: s("a.near"),
            price: 0,
            deposit: 7,
        }))
    );
}

#[test]
fn holder_mint_needs_gas_for_dispatch() {
    let mut c = engine();
    c.init_metaverse(s("m1"), s("a.near"), vec![holder_zone(2, 2, 10)], 0).unwrap();
    let r = c.mint_rock(&s("alice.near"), &s("m1"), 2, 3, &s("bob.near"), 0, GAS_FOR_DISPATCH - 1);
    assert_eq!(r, Err(RockError::InsufficientGas));
    assert!(c.pending.is_empty());
    match c.mint_rock(&s("alice.near"), &s("m1"), 2, 3, &s("bob.near"), 5, GAS_FOR_DISPATCH) {
        Ok(MintStep::Dispatched(p)) => {
            assert_eq!(p.ticket, 0);
            assert_eq!(p.holder_id, "alice.near");
            assert_eq!(p.collection_addr, "nft.near");
            assert_eq!(p.deposit, 5);
            assert_eq!(p.query_gas, GAS_FOR_COMMON_OPERATIONS);
            assert_eq!(p.resume_gas, 30_000_000_000_000);
        }
        other => panic!("{:?}", other),
    }
    assert!(c.metaverses[0].tokens_minted.is_empty());
}

#[test]
fn holder_mint_selects_first_unspent_unit() {
    let mut c = engine();
    c.init_metaverse(s("m1"), s("a.near"), vec![holder_zone(2, 2, 10)], 0).unwrap();
    let t0 = dispatch(&mut c, 2);
    let r0 = c.mint_nft_checker_rock(t0, QueryReply::Successful(tokens_json(&["7"])));
    assert_eq!(r0.unwrap().token_id, "m1:2:2");
    assert_eq!(c.metaverses[0].nft_checker, vec![s("7")]);

    let t1 = dispatch(&mut c, 3);
    let r1 = c.mint_nft_checker_rock(t1, QueryReply::Successful(tokens_json(&["7", "8"])));
    assert_eq!(r1.unwrap().token_id, "m1:2:3");
    assert_eq!(c.metaverses[0].nft_checker, vec![s("7"), s("8")]);

    let t2 = dispatch(&mut c, 4);
    let r2 = c.mint_nft_checker_rock(t2, QueryReply::Successful(tokens_json(&["7"])));
    assert_eq!(r2, Err(RockError::AllUnitsSpent));
    assert_eq!(c.metaverses[0].tokens_minted, vec![s("m1:2:2"), s("m1:2:3")]);
    assert_eq!(c.metaverses[0].nft_checker, vec![s("7"), s("8")]);
}

#[test]
fn resumed_step_runs_once_per_dispatch() {
    let mut c = engine();
    c.init_metaverse(s("m1"), s("a.near"), vec![holder_zone(2, 2, 10)], 0).unwrap();
    assert_eq!(
        c.resume_holder_mint(0, &QueryOutcome::Units(vec![s("1")])),
        Err(RockError::ProtocolViolation)
    );
    let t = dispatch(&mut c, 2);
    assert!(c.resume_holder_mint(t, &QueryOutcome::Units(vec![s("1")])).is_ok());
    assert_eq!(
        c.resume_holder_mint(t, &QueryOutcome::Units(vec![s("2")])),
        Err(RockError::ProtocolViolation)
    );
    assert_eq!(c.metaverses[0].tokens_minted, vec![s("m1:2:2")]);
}

#[test]
fn resumed_step_reports_query_failures_and_consumes_ticket() {
    let mut c = engine();
    c.init_metaverse(s("m1"), s("a.near"), vec![holder_zone(2, 2, 10)], 0).unwrap();
    let cases = [
        (QueryReply::NotReady, RockError::ExternalQueryPending),
        (QueryReply::Failed, RockError::ExternalQueryFailed),
        (QueryReply::Successful(b"not json".to_vec()), RockError::ExternalQueryFailed),
        (QueryReply::Successful(b"[]".to_vec()), RockError::NoQualifyingUnit),
    ];
    for (reply, err) in cases {
        let t = dispatch(&mut c, 2);
        assert_eq!(c.mint_nft_checker_rock(t, reply), Err(err));
        assert!(c.pending.is_empty());
        assert!(c.metaverses[0].tokens_minted.is_empty());
        assert!(c.metaverses[0].nft_checker.is_empty());
    }
}

#[test]
fn resumed_step_rechecks_current_state() {
    let mut c = engine();
    c.init_metaverse(s("m1"), s("a.near"), vec![holder_zone(2, 2, 10)], 0).unwrap();
    let first = dispatch(&mut c, 5);
    let second = dispatch(&mut c, 5);
    assert!(c.mint_nft_checker_rock(first, QueryReply::Successful(tokens_json(&["1"]))).is_ok());
    let dup = c.mint_nft_checker_rock(second, QueryReply::Successful(tokens_json(&["2"])));
    assert_eq!(dup, Err(RockError::AlreadyMinted));
    assert_eq!(c.metaverses[0].nft_checker, vec![s("1")]);

    c.change_nft_collection_rock_price(&s("a.near"), 1, &s("m1"), 2, 50).unwrap();
    let t = dispatch(&mut c, 6);
    let short = c.mint_nft_checker_rock(t, QueryReply::Successful(tokens_json(&["2"])));
    assert_eq!(short, Err(RockError::InsufficientDeposit));
    assert_eq!(c.metaverses[0].nft_checker, vec![s("1")]);
}

#[test]
fn reply_decoding_keeps_ids_in_order() {
    match decode_reply(QueryReply::Successful(tokens_json(&["b", "a", "c"]))) {
        QueryOutcome::Units(ids) => assert_eq!(ids, vec![s("b"), s("a"), s("c")]),
        other => panic!("{:?}", other),
    }
    assert!(matches!(decode_reply(QueryReply::NotReady), QueryOutcome::NotReady));
    assert!(matches!(decode_reply(QueryReply::Successful(b"{}".to_vec())), QueryOutcome::Failed));
}

#[test]
fn holder_mint_refuses_unusable_collection_at_dispatch() {
    let mut c = engine();
    let mut zone = holder_zone(2, 2, 10);
    zone.collection_addr = s("A");
    c.init_metaverse(s("m1"), s("a.near"), vec![zone], 0).unwrap();
    let r = c.mint_rock(&s("alice.near"), &s("m1"), 2, 3, &s("bob.near"), 0, GAS);
    assert_eq!(r, Err(RockError::InvalidZone));
    assert!(c.pending.is_empty());
}
