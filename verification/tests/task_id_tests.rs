//! Task identifier derivation, time slots, and the end-to-end scenario.

use automation_price::pallet::Pallet;
use automation_price::types::{
    AssetPayment, DispatchError, Error, Event, LocationInput, Origin,
};

fn bv(s: &str) -> Vec<u8> {
    s.as_bytes().to_vec()
}

#[test]
fn generate_task_id_formats_block_transaction_and_event_count() {
    let mut p = Pallet::new();
    p.block_number = 12;
    p.extrinsic_index = 3;
    assert_eq!(p.generate_task_id(), bv("12-3-0"));
    p.events.push(Event::Notify { message: bv("x") });
    assert_eq!(p.generate_task_id(), bv("12-3-1"));
}

#[test]
fn generate_task_id_never_collides_within_a_block() {
    let mut p = Pallet::new();
    p.block_number = 5;
    p.extrinsic_index = 0;
    let a = p.generate_task_id();
    p.extrinsic_index = 1;
    let b = p.generate_task_id();
    p.events.push(Event::Notify { message: bv("x") });
    let c = p.generate_task_id();
    assert_ne!(a, b);
    assert_ne!(b, c);
    assert_ne!(a, c);
}

#[test]
fn generate_task_id_never_collides_across_blocks() {
    let mut p = Pallet::new();
    p.block_number = 1;
    p.extrinsic_index = 2;
    let a = p.generate_task_id();
    p.block_number = 12;
    // The same transaction index and event count in another block.
    let b = p.generate_task_id();
    assert_ne!(a, b);
}

#[test]
fn current_time_slot_floors_to_the_minute() {
    let mut p = Pallet::new();
    assert_eq!(p.get_current_time_slot(), Err(Error::BlockTimeNotSet));
    p.timestamp = 125_000;
    assert_eq!(p.get_current_time_slot(), Ok(120));
    p.timestamp = 179_999;
    assert_eq!(p.get_current_time_slot(), Ok(120));
    p.timestamp = 180_000;
    assert_eq!(p.get_current_time_slot(), Ok(180));
}

#[test]
fn end_to_end_price_feed_and_scheduled_task() {
    let mut p = Pallet::new();
    // Initialize the pair with decimal 6 and oracle provider account 1.
    p.initialize_asset(Origin::Root, bv("eth"), bv("uni"), bv("USDC"), bv("ETH"), 6, vec![1])
        .unwrap();
    // An authorized update succeeds.
    p.update_asset_prices(
        Origin::Signed(1),
        vec![bv("eth")],
        vec![bv("uni")],
        vec![bv("USDC")],
        vec![bv("ETH")],
        vec![1800],
        vec![0],
        vec![1],
    )
    .unwrap();
    assert_eq!(
        p.get_asset_price_data(&bv("eth"), &bv("uni"), &bv("USDC"), &bv("ETH")).unwrap().amount,
        1800,
    );
    // An unauthorized account is turned away.
    let r = p.update_asset_prices(
        Origin::Signed(2),
        vec![bv("eth")],
        vec![bv("uni")],
        vec![bv("USDC")],
        vec![bv("ETH")],
        vec![1900],
        vec![0],
        vec![2],
    );
    assert_eq!(r, Err(DispatchError::Module(Error::OracleNotAuthorized)));
    // Schedule a cross-chain task against the pair.
    p.schedule_xcmp_task(
        Origin::Signed(1),
        bv("eth"),
        bv("uni"),
        bv("USDC"),
        bv("ETH"),
        0,
        bv("gt"),
        vec![1800],
        LocationInput { version: 3, payload: bv("dest") },
        LocationInput { version: 3, payload: bv("sched-fee") },
        AssetPayment { asset_location: LocationInput { version: 3, payload: bv("fee") }, amount: 5 },
        bv("call"),
        1_000,
        2_000,
    )
    .unwrap();
    assert_eq!(p.task_queue.len(), 1);
    let id = p.task_queue[0].task_id.clone();
    assert!(p.get_task(&id).is_some());
    // A zero budget leaves the queue untouched.
    assert_eq!(p.trigger_tasks(0), 0);
    assert_eq!(p.task_queue.len(), 1);
    // Ample budget executes the task and removes it from the store.
    let consumed = p.trigger_tasks(10_000_000);
    assert!(consumed > 0);
    assert_eq!(p.task_queue.len(), 0);
    assert!(p.get_task(&id).is_none());
    assert_eq!(p.outbound_xcmp.len(), 1);
    assert_eq!(p.outbound_xcmp[0].destination, bv("dest"));
}
