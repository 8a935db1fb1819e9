use metaverse_rocks::{RockError, RoyaltyTable};

fn table(entries: &[(&str, u16)]) -> RoyaltyTable {
    RoyaltyTable::new(entries.iter().map(|(a, b)| (a.to_string(), *b)).collect()).unwrap()
}

fn amount(p: &[(String, u128)], who: &str) -> u128 {
    p.iter().find(|(a, _)| a == who).map(|(_, v)| *v).unwrap()
}

#[test]
fn payout_gives_owner_the_rest() {
    let t = table(&[("a.near", 1000), ("b.near", 500)]);
    let p = t.nft_payout(&Some("owner.near".to_string()), 10000, 10).unwrap().payout;
    assert_eq!(
        p,
        vec![
            ("a.near".to_string(), 1000),
            ("b.near".to_string(), 500),
            ("owner.near".to_string(), 8500)
        ]
    );
    let total: u128 = p.iter().map(|(_, v)| v).sum();
    assert_eq!(total, 10000);
}

#[test]
fn payout_skips_owner_listed_in_table() {
    let t = table(&[("a.near", 1000), ("owner.near", 2000)]);
    let p = t.nft_payout(&Some("owner.near".to_string()), 1000, 2).unwrap().payout;
    assert_eq!(p.len(), 2);
    assert_eq!(amount(&p, "a.near"), 100);
    assert_eq!(amount(&p, "owner.near"), 900);
}

#[test]
fn payout_owner_absorbs_rounding() {
    let t = table(&[("a.near", 3333), ("b.near", 3333)]);
    let p = t.nft_payout(&Some("o.near".to_string()), 7, 5).unwrap().payout;
    assert_eq!(amount(&p, "a.near"), 2);
    assert_eq!(amount(&p, "b.near"), 2);
    assert_eq!(amount(&p, "o.near"), 3);
    let total: u128 = p.iter().map(|(_, v)| v).sum();
    assert_eq!(total, 7);
    let half = table(&[("a.near", 5000)]);
    let q = half.nft_payout(&Some("o.near".to_string()), 1, 5).unwrap().payout;
    assert_eq!(q, vec![("a.near".to_string(), 0), ("o.near".to_string(), 1)]);
}

#[test]
fn payout_handles_largest_balance() {
    let t = table(&[("a.near", 10000)]);
    let p = t.nft_payout(&Some("o.near".to_string()), u128::MAX, 1).unwrap().payout;
    assert_eq!(amount(&p, "a.near"), u128::MAX);
    assert_eq!(amount(&p, "o.near"), 0);
}

#[test]
fn payout_errors() {
    let t = table(&[("a.near", 1000), ("b.near", 500)]);
    assert!(matches!(t.nft_payout(&None, 100, 10), Err(RockError::NotFound)));
    assert!(matches!(
        t.nft_payout(&Some("o.near".to_string()), 100, 1),
        Err(RockError::TooManyRecipients)
    ));
}

#[test]
fn royalty_table_rejects_over_whole_or_duplicates() {
    let over = RoyaltyTable::new(vec![("a".to_string(), 6000), ("b".to_string(), 4001)]);
    assert!(matches!(over, Err(RockError::InvalidRoyalty)));
    let dup = RoyaltyTable::new(vec![("a".to_string(), 1), ("a".to_string(), 2)]);
    assert!(matches!(dup, Err(RockError::InvalidRoyalty)));
    let whole = RoyaltyTable::new(vec![("a".to_string(), 6000), ("b".to_string(), 4000)]);
    assert!(whole.is_ok());
    let empty = table(&[]);
    let p = empty.nft_payout(&Some("o".to_string()), 55, 0).unwrap().payout;
    assert_eq!(p, vec![("o".to_string(), 55)]);
}
