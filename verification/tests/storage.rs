use db::error::{DbError, ErrorCategory};
use db::event::{MakerEventType, Side};
use db::market::BaseAsset;
use db::numeric::{BigUint, Decimal, Timestamp};
use db::storage::{
    add_maker_event, coin_count, create_coin, lookup_coin, lookup_market, maker_event_at,
    maker_event_count, market_count, register_market, Storage,
};

fn id(digits: &[u8]) -> BigUint {
    BigUint::from_digits(digits.to_vec()).unwrap()
}

fn dec(digits: &[u8]) -> Decimal {
    Decimal::new(false, digits.to_vec(), 0).unwrap()
}

fn ts(seconds: i64) -> Timestamp {
    Timestamp::new(seconds, 0).unwrap()
}

#[test]
fn coin_round_trip_preserves_fields() {
    let mut store = Storage::new();
    let created = create_coin(
        &mut store,
        "0x1",
        "coin",
        "USDC",
        Some("USDC"),
        Some("USD Coin"),
        Some(6),
    )
    .unwrap();
    let found = lookup_coin(&store, "0x1", "coin", "USDC").unwrap();
    assert_eq!(found.id, created.id);
    assert_eq!(found.account_address, "0x1");
    assert_eq!(found.module_name, "coin");
    assert_eq!(found.struct_name, "USDC");
    assert_eq!(found.symbol, Some("USDC".to_string()));
    assert_eq!(found.name, Some("USD Coin".to_string()));
    assert_eq!(found.decimals, Some(6));
}

#[test]
fn coin_round_trip_keeps_optional_fields_absent() {
    let mut store = Storage::new();
    create_coin(&mut store, "0x7", "generic", "Asset", None, None, None).unwrap();
    let found = lookup_coin(&store, "0x7", "generic", "Asset").unwrap();
    assert_eq!(found.symbol, None);
    assert_eq!(found.name, None);
    assert_eq!(found.decimals, None);
}

#[test]
fn duplicate_coin_rejected() {
    let mut store = Storage::new();
    create_coin(&mut store, "0x1", "coin", "USDC", Some("USDC"), None, Some(6)).unwrap();
    let second = create_coin(&mut store, "0x1", "coin", "USDC", None, None, None);
    let err = second.unwrap_err();
    assert_eq!(err, DbError::DuplicateCoin);
    assert_eq!(err.category(), ErrorCategory::ConstraintViolation);
    assert_eq!(coin_count(&store), 1);
}

#[test]
fn distinct_coin_identities_accepted() {
    let mut store = Storage::new();
    let a = create_coin(&mut store, "0x1", "coin", "USDC", None, None, None).unwrap();
    let b = create_coin(&mut store, "0x1", "coin", "APT", None, None, None).unwrap();
    let c = create_coin(&mut store, "0x2", "coin", "USDC", None, None, None).unwrap();
    assert_eq!(a.id, 1);
    assert_eq!(b.id, 2);
    assert_eq!(c.id, 3);
    assert_eq!(coin_count(&store), 3);
}

#[test]
fn market_round_trip_preserves_decimals_exactly() {
    let mut store = Storage::new();
    let lot = Decimal::new(false, vec![1, 0, 0], 2).unwrap();
    let tick = Decimal::new(false, vec![2, 5], 3).unwrap();
    let min = Decimal::new(false, vec![1, 0, 0, 0], 0).unwrap();
    register_market(
        &mut store,
        id(&[7]),
        ts(1_000),
        BaseAsset::Registered(1),
        2,
        lot.clone(),
        tick.clone(),
        min.clone(),
        id(&[]),
    )
    .unwrap();
    let found = lookup_market(&store, &id(&[7])).unwrap();
    assert_eq!(found.lot_size, lot);
    assert_eq!(found.tick_size, tick);
    assert_eq!(found.min_size, min);
    assert_eq!(found.quote_id, 2);
    assert_eq!(found.time, ts(1_000));
}

#[test]
fn generic_base_market_round_trip() {
    let mut store = Storage::new();
    register_market(
        &mut store,
        id(&[9]),
        ts(5),
        BaseAsset::Generic("wrapped gold".to_string()),
        1,
        dec(&[1]),
        dec(&[1]),
        dec(&[1]),
        id(&[]),
    )
    .unwrap();
    let found = lookup_market(&store, &id(&[9])).unwrap();
    match found.base {
        BaseAsset::Generic(name) => assert_eq!(name, "wrapped gold"),
        BaseAsset::Registered(_) => panic!("base should be generic"),
    }
}

#[test]
fn duplicate_market_rejected() {
    let mut store = Storage::new();
    register_market(
        &mut store,
        id(&[1]),
        ts(1),
        BaseAsset::Registered(1),
        2,
        dec(&[1]),
        dec(&[1]),
        dec(&[1]),
        id(&[]),
    )
    .unwrap();
    let second = register_market(
        &mut store,
        id(&[1]),
        ts(2),
        BaseAsset::Registered(3),
        4,
        dec(&[5]),
        dec(&[5]),
        dec(&[5]),
        id(&[]),
    );
    assert_eq!(second.unwrap_err(), DbError::DuplicateMarket);
    assert_eq!(market_count(&store), 1);
    let kept = lookup_market(&store, &id(&[1])).unwrap();
    assert_eq!(kept.quote_id, 2);
}

#[test]
fn maker_event_unknown_market_rejected() {
    let mut store = Storage::new();
    let result = add_maker_event(
        &mut store,
        id(&[1]),
        Side::Buy,
        id(&[4, 2]),
        "0xabc",
        None,
        MakerEventType::Place,
        dec(&[1]),
        dec(&[1]),
        ts(1),
    );
    assert_eq!(result.unwrap_err(), DbError::UnknownMarket);
    assert_eq!(maker_event_count(&store), 0);
}

#[test]
fn maker_event_appends_and_never_replaces() {
    let mut store = Storage::new();
    register_market(
        &mut store,
        id(&[1]),
        ts(1),
        BaseAsset::Registered(1),
        2,
        dec(&[1]),
        dec(&[1]),
        dec(&[1]),
        id(&[]),
    )
    .unwrap();
    let first = add_maker_event(
        &mut store,
        id(&[1]),
        Side::Sell,
        id(&[4, 2]),
        "0xabc",
        Some(id(&[3])),
        MakerEventType::Place,
        dec(&[5, 0]),
        dec(&[2]),
        ts(10),
    )
    .unwrap();
    assert_eq!(first.side, Side::Sell);
    // The same logical event again: history appends rather than replaces.
    let second = add_maker_event(
        &mut store,
        id(&[1]),
        Side::Sell,
        id(&[4, 2]),
        "0xabc",
        Some(id(&[3])),
        MakerEventType::Place,
        dec(&[5, 0]),
        dec(&[2]),
        ts(10),
    );
    assert!(second.is_ok());
    assert_eq!(maker_event_count(&store), 2);
    let kept = maker_event_at(&store, 0);
    assert_eq!(kept.market_order_id.digits, vec![4, 2]);
    assert_eq!(kept.user_address, "0xabc");
    assert_eq!(kept.event_type, MakerEventType::Place);
    assert_eq!(kept.time, ts(10));
}

#[test]
fn maker_event_every_type_accepted() {
    let mut store = Storage::new();
    register_market(
        &mut store,
        id(&[1]),
        ts(1),
        BaseAsset::Registered(1),
        2,
        dec(&[1]),
        dec(&[1]),
        dec(&[1]),
        id(&[]),
    )
    .unwrap();
    let types = [
        MakerEventType::Place,
        MakerEventType::Fill,
        MakerEventType::Cancel,
        MakerEventType::Evict,
    ];
    for (n, event_type) in types.iter().enumerate() {
        add_maker_event(
            &mut store,
            id(&[1]),
            Side::Buy,
            id(&[4, 2]),
            "0xabc",
            None,
            *event_type,
            dec(&[1]),
            dec(&[1]),
            ts(n as i64),
        )
        .unwrap();
    }
    assert_eq!(maker_event_count(&store), 4);
    for (n, event_type) in types.iter().enumerate() {
        assert_eq!(maker_event_at(&store, n).event_type, *event_type);
    }
}

#[test]
fn full_exchange_scenario() {
    let mut store = Storage::new();
    let usdc = create_coin(
        &mut store,
        "0x1",
        "coin",
        "USDC",
        Some("USDC"),
        Some("USD Coin"),
        Some(6),
    )
    .unwrap();
    let apt = create_coin(
        &mut store,
        "0x1",
        "coin",
        "APT",
        Some("APT"),
        Some("Aptos"),
        Some(8),
    )
    .unwrap();
    let market = register_market(
        &mut store,
        id(&[1]),
        ts(1_700_000_000),
        BaseAsset::Registered(apt.id),
        usdc.id,
        dec(&[1, 0, 0]),
        dec(&[1]),
        dec(&[1, 0, 0, 0]),
        id(&[]),
    )
    .unwrap();
    assert_eq!(market.market_id.digits, vec![1]);
    let event = add_maker_event(
        &mut store,
        id(&[1]),
        Side::Buy,
        id(&[4, 2]),
        "0xabc",
        None,
        MakerEventType::Place,
        dec(&[5, 0, 0, 0]),
        dec(&[1, 5, 0]),
        ts(1_700_000_100),
    )
    .unwrap();
    assert_eq!(event.side, Side::Buy);
    assert_eq!(event.event_type, MakerEventType::Place);
    assert_eq!(coin_count(&store), 2);
    assert_eq!(market_count(&store), 1);
    assert_eq!(maker_event_count(&store), 1);
    let row = maker_event_at(&store, 0);
    assert_eq!(row.side, Side::Buy);
    assert_eq!(row.event_type, MakerEventType::Place);
    assert_eq!(row.size, dec(&[5, 0, 0, 0]));
    assert_eq!(row.price, dec(&[1, 5, 0]));
    assert_eq!(row.custodian_id, None);
}
