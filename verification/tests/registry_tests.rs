//! Asset registry and price registry behaviour, with every rejection.

use automation_price::pallet::Pallet;
use automation_price::types::{DispatchError, Error, Event, Origin};

fn bv(s: &str) -> Vec<u8> {
    s.as_bytes().to_vec()
}

fn init_eth(p: &mut Pallet) {
    p.initialize_asset(Origin::Root, bv("eth"), bv("uni"), bv("USDC"), bv("ETH"), 6, vec![1])
        .unwrap();
}

#[test]
fn initialize_asset_registers_metadata() {
    let mut p = Pallet::new();
    init_eth(&mut p);
    let info = p
        .get_asset_registry_info(&bv("eth"), &bv("uni"), &bv("USDC"), &bv("ETH"))
        .unwrap();
    assert_eq!(info.decimal, 6);
    assert_eq!(info.round, 0);
    assert_eq!(info.last_update, 0);
    assert_eq!(info.oracle_providers, vec![1]);
    assert!(matches!(p.events.last().unwrap(), Event::AssetCreated { decimal: 6, .. }));
}

#[test]
fn initialize_asset_requires_root() {
    let mut p = Pallet::new();
    let r = p.initialize_asset(
        Origin::Signed(1),
        bv("eth"),
        bv("uni"),
        bv("USDC"),
        bv("ETH"),
        6,
        vec![1],
    );
    assert_eq!(r, Err(DispatchError::BadOrigin));
    assert!(p.get_asset_registry_info(&bv("eth"), &bv("uni"), &bv("USDC"), &bv("ETH")).is_none());
}

#[test]
fn initialize_asset_twice_is_rejected() {
    let mut p = Pallet::new();
    init_eth(&mut p);
    let r = p.initialize_asset(
        Origin::Root,
        bv("eth"),
        bv("uni"),
        bv("USDC"),
        bv("ETH"),
        8,
        vec![2],
    );
    assert_eq!(r, Err(DispatchError::Module(Error::AssetAlreadyInitialized)));
    let info = p
        .get_asset_registry_info(&bv("eth"), &bv("uni"), &bv("USDC"), &bv("ETH"))
        .unwrap();
    assert_eq!(info.decimal, 6);
}

#[test]
fn update_asset_prices_overwrites_price() {
    let mut p = Pallet::new();
    init_eth(&mut p);
    p.update_asset_prices(
        Origin::Signed(1),
        vec![bv("eth")],
        vec![bv("uni")],
        vec![bv("USDC")],
        vec![bv("ETH")],
        vec![1800],
        vec![0],
        vec![1],
    )
    .unwrap();
    let d = *p.get_asset_price_data(&bv("eth"), &bv("uni"), &bv("USDC"), &bv("ETH")).unwrap();
    assert_eq!(d.amount, 1800);
    assert_eq!(d.round, 1);
    assert_eq!(d.nonce, 1);
    p.update_asset_prices(
        Origin::Signed(1),
        vec![bv("eth")],
        vec![bv("uni")],
        vec![bv("USDC")],
        vec![bv("ETH")],
        vec![1900],
        vec![0],
        vec![2],
    )
    .unwrap();
    let d = *p.get_asset_price_data(&bv("eth"), &bv("uni"), &bv("USDC"), &bv("ETH")).unwrap();
    assert_eq!(d.amount, 1900);
    assert_eq!(d.round, 2);
}

#[test]
fn update_asset_prices_unauthorized_oracle_changes_nothing() {
    let mut p = Pallet::new();
    init_eth(&mut p);
    p.update_asset_prices(
        Origin::Signed(1),
        vec![bv("eth")],
        vec![bv("uni")],
        vec![bv("USDC")],
        vec![bv("ETH")],
        vec![1800],
        vec![0],
        vec![1],
    )
    .unwrap();
    let before = *p.get_asset_price_data(&bv("eth"), &bv("uni"), &bv("USDC"), &bv("ETH")).unwrap();
    let r = p.update_asset_prices(
        Origin::Signed(2),
        vec![bv("eth")],
        vec![bv("uni")],
        vec![bv("USDC")],
        vec![bv("ETH")],
        vec![9999],
        vec![0],
        vec![2],
    );
    assert_eq!(r, Err(DispatchError::Module(Error::OracleNotAuthorized)));
    let after = *p.get_asset_price_data(&bv("eth"), &bv("uni"), &bv("USDC"), &bv("ETH")).unwrap();
    assert_eq!(before, after);
}

#[test]
fn update_asset_prices_unknown_asset_is_rejected() {
    let mut p = Pallet::new();
    let r = p.update_asset_prices(
        Origin::Signed(1),
        vec![bv("eth")],
        vec![bv("uni")],
        vec![bv("USDC")],
        vec![bv("ETH")],
        vec![1800],
        vec![0],
        vec![1],
    );
    assert_eq!(r, Err(DispatchError::Module(Error::AssetNotInitialized)));
    assert!(p.get_asset_price_data(&bv("eth"), &bv("uni"), &bv("USDC"), &bv("ETH")).is_none());
}

#[test]
fn update_asset_prices_requires_signed_origin() {
    let mut p = Pallet::new();
    init_eth(&mut p);
    let r = p.update_asset_prices(
        Origin::Root,
        vec![bv("eth")],
        vec![bv("uni")],
        vec![bv("USDC")],
        vec![bv("ETH")],
        vec![1800],
        vec![0],
        vec![1],
    );
    assert_eq!(r, Err(DispatchError::BadOrigin));
}

#[test]
fn update_asset_prices_mismatched_lengths_are_rejected() {
    let mut p = Pallet::new();
    init_eth(&mut p);
    let r = p.update_asset_prices(
        Origin::Signed(1),
        vec![bv("eth")],
        vec![bv("uni")],
        vec![bv("USDC")],
        vec![bv("ETH")],
        vec![1800, 1900],
        vec![0, 0],
        vec![1, 2],
    );
    assert_eq!(r, Err(DispatchError::Module(Error::InvalidBatchLength)));
    assert!(p.get_asset_price_data(&bv("eth"), &bv("uni"), &bv("USDC"), &bv("ETH")).is_none());
}

#[test]
fn update_asset_prices_batch_aborts_whole_on_one_bad_entry() {
    let mut p = Pallet::new();
    init_eth(&mut p);
    // The first entry is fine, the second names an unknown pair: neither is
    // applied.
    let r = p.update_asset_prices(
        Origin::Signed(1),
        vec![bv("eth"), bv("eth")],
        vec![bv("uni"), bv("uni")],
        vec![bv("USDC"), bv("DAI")],
        vec![bv("ETH"), bv("ETH")],
        vec![1800, 1],
        vec![0, 0],
        vec![1, 1],
    );
    assert_eq!(r, Err(DispatchError::Module(Error::AssetNotInitialized)));
    assert!(p.get_asset_price_data(&bv("eth"), &bv("uni"), &bv("USDC"), &bv("ETH")).is_none());
}

#[test]
fn update_asset_prices_batch_later_entry_wins() {
    let mut p = Pallet::new();
    init_eth(&mut p);
    p.update_asset_prices(
        Origin::Signed(1),
        vec![bv("eth"), bv("eth")],
        vec![bv("uni"), bv("uni")],
        vec![bv("USDC"), bv("USDC")],
        vec![bv("ETH"), bv("ETH")],
        vec![1800, 1850],
        vec![0, 0],
        vec![1, 2],
    )
    .unwrap();
    let d = *p.get_asset_price_data(&bv("eth"), &bv("uni"), &bv("USDC"), &bv("ETH")).unwrap();
    assert_eq!(d.amount, 1850);
    assert_eq!(d.round, 2);
}

#[test]
fn delete_asset_announces_deletion_and_keeps_record() {
    let mut p = Pallet::new();
    init_eth(&mut p);
    p.delete_asset(Origin::Root, bv("eth"), bv("uni"), bv("USDC"), bv("ETH")).unwrap();
    assert!(matches!(p.events.last().unwrap(), Event::AssetDeleted { .. }));
    // Deletion does not cascade to the registry record in this design.
    assert!(p.get_asset_registry_info(&bv("eth"), &bv("uni"), &bv("USDC"), &bv("ETH")).is_some());
}

#[test]
fn delete_asset_unknown_is_rejected() {
    let mut p = Pallet::new();
    let r = p.delete_asset(Origin::Root, bv("eth"), bv("uni"), bv("USDC"), bv("ETH"));
    assert_eq!(r, Err(DispatchError::Module(Error::AssetNotSupported)));
}

#[test]
fn delete_asset_requires_root() {
    let mut p = Pallet::new();
    init_eth(&mut p);
    let r = p.delete_asset(Origin::Signed(1), bv("eth"), bv("uni"), bv("USDC"), bv("ETH"));
    assert_eq!(r, Err(DispatchError::BadOrigin));
}
